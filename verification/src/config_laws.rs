//! What holds of the configuration, whatever the environment.

use vstd::prelude::*;

use crate::config::{
    app_paths, configured, first_existing, loaded, referer_in, ConfigError, EnvironmentView,
    KeyError, REFERER_END, REFERER_START,
};
use crate::text::{
    after, before, decimal, digits_of, i32_value, is_digit, is_white_space,
    law_decimal_reads_back, lemma_digits_of, occurs, occurs_at, trimmed, u64_value,
};
use crate::text_laws::{
    law_texts_split_at_the_first_needle, law_trimming_takes_the_white_space_at_both_ends,
    law_truth_values_have_one_text, law_u64_reads_back,
};

verus! {

// ---------------------------------------------------------------------------
// Variables
// ---------------------------------------------------------------------------

/// Text that neither starts nor ends with white space is what is left of it once white
/// space has been put around it.
pub proof fn lemma_padding_is_trimmed(left: Seq<char>, core: Seq<char>, right: Seq<char>)
    requires
        forall|i: int| 0 <= i < left.len() ==> is_white_space(#[trigger] left[i]),
        forall|i: int| 0 <= i < right.len() ==> is_white_space(#[trigger] right[i]),
        core.len() > 0,
        !is_white_space(core[0]),
        !is_white_space(core[core.len() - 1]),
    ensures
        trimmed(left + core + right) == core,
{
    let s = left + core + right;
    let n = left.len() as int;
    let m = n + core.len();
    let (from, to) = law_trimming_takes_the_white_space_at_both_ends(s);
    assert(s[n] == core[0]);
    assert(s[m - 1] == core[core.len() - 1]);
    assert(from <= n) by {
        if from > n {
            assert(is_white_space(s[n]));
        }
    }
    assert(to >= m) by {
        if to < m {
            assert(is_white_space(s[m - 1]));
        }
    }
    assert(from == n) by {
        if from < n {
            assert(s[from] == left[from]);
        }
    }
    assert(to == m) by {
        if to > m {
            assert(s[to - 1] == right[to - 1 - m]);
        }
    }
    assert(s.subrange(n, m) =~= core);
}

proof fn lemma_decimal_has_no_white_space_at_its_ends(n: int)
    ensures
        decimal(n).len() > 0,
        !is_white_space(decimal(n)[0]),
        !is_white_space(decimal(n)[decimal(n).len() - 1]),
{
    let size = if n < 0 {
        (-n) as nat
    } else {
        n as nat
    };
    lemma_digits_of(size);
    let digits = digits_of(size);
    assert(is_digit(digits[0]));
    assert(is_digit(digits[digits.len() - 1]));
    assert(decimal(n)[decimal(n).len() - 1] == digits[digits.len() - 1]);
}

proof fn lemma_truth_values_have_no_white_space_at_their_ends()
    ensures
        "true"@.len() > 0,
        !is_white_space("true"@[0]),
        !is_white_space("true"@["true"@.len() - 1]),
        "false"@.len() > 0,
        !is_white_space("false"@[0]),
        !is_white_space("false"@["false"@.len() - 1]),
{
    reveal_strlit("true");
    reveal_strlit("false");
}

/// A number or a truth value that is set, with white space around it or not, is the one
/// that is used. So are an address, and a package that is not blank, letter for letter.
/// Which other variables are set does not matter.
pub proof fn law_what_is_set_is_used(
    environment: EnvironmentView,
    app_path: Seq<char>,
    referer: Seq<char>,
    database_key: Seq<char>,
    left: Seq<char>,
    right: Seq<char>,
    uid: i32,
    delay: u64,
    exit: bool,
)
    requires
        forall|i: int| 0 <= i < left.len() ==> is_white_space(#[trigger] left[i]),
        forall|i: int| 0 <= i < right.len() ==> is_white_space(#[trigger] right[i]),
    ensures
        configured(environment, app_path, referer, database_key) matches Ok(config) ==> {
            &&& config.app_path == app_path
            &&& config.referer == referer
            &&& config.database_key == database_key
            &&& config.temp_dir == "/sdcard/arisa_temp"@
            &&& environment.bind matches Some(bind) ==> config.bind == bind
            &&& environment.bind is None ==> config.bind == "0.0.0.0:3000"@
            &&& environment.calling_package matches Some(package) ==> {
                &&& (exists|i: int| 0 <= i < package.len() && !is_white_space(#[trigger] package[i]))
                    ==> config.calling_package == package
                &&& (forall|i: int| 0 <= i < package.len() ==> is_white_space(#[trigger] package[i]))
                    ==> config.calling_package == "com.android.shell"@
            }
            &&& environment.calling_package is None ==> config.calling_package
                == "com.android.shell"@
            &&& environment.uid == Some(left + decimal(uid as int) + right) ==> config.uid == Some(
                uid,
            )
            &&& environment.db_pull_delay == Some(left + decimal(delay as int) + right)
                ==> config.db_pull_delay == delay
            &&& environment.exit_on_stdin_close == Some(
                left + (if exit {
                    "true"@
                } else {
                    "false"@
                }) + right,
            ) ==> config.exit_on_stdin_close == exit
        },
        environment.uid == Some(left + decimal(uid as int) + right) && environment.db_pull_delay
            == Some(left + decimal(delay as int) + right) && environment.exit_on_stdin_close
            == Some(
            left + (if exit {
                "true"@
            } else {
                "false"@
            }) + right,
        ) ==> configured(environment, app_path, referer, database_key) is Ok,
{
    lemma_decimal_has_no_white_space_at_its_ends(uid as int);
    lemma_padding_is_trimmed(left, decimal(uid as int), right);
    law_decimal_reads_back(uid);
    lemma_decimal_has_no_white_space_at_its_ends(delay as int);
    lemma_padding_is_trimmed(left, decimal(delay as int), right);
    law_u64_reads_back(delay);
    lemma_truth_values_have_no_white_space_at_their_ends();
    let word = if exit {
        "true"@
    } else {
        "false"@
    };
    lemma_padding_is_trimmed(left, word, right);
    law_truth_values_have_one_text("true"@);
    law_truth_values_have_one_text("false"@);
}

/// The numbers and the truth value of a configuration are those that the variables
/// write, and the defaults exactly where nothing but white space is written.
pub proof fn law_numbers_are_those_that_are_written(
    environment: EnvironmentView,
    app_path: Seq<char>,
    referer: Seq<char>,
    database_key: Seq<char>,
)
    ensures
        configured(environment, app_path, referer, database_key) matches Ok(config) ==> {
            &&& match environment.uid {
                None => config.uid is None,
                Some(v) => if forall|i: int| 0 <= i < v.len() ==> is_white_space(#[trigger] v[i]) {
                    config.uid is None
                } else {
                    config.uid is Some && config.uid == i32_value(trimmed(v))
                },
            }
            &&& match environment.db_pull_delay {
                None => config.db_pull_delay == 100,
                Some(v) => if forall|i: int| 0 <= i < v.len() ==> is_white_space(#[trigger] v[i]) {
                    config.db_pull_delay == 100
                } else {
                    u64_value(trimmed(v)) == Some(config.db_pull_delay)
                },
            }
            &&& match environment.exit_on_stdin_close {
                None => config.exit_on_stdin_close,
                Some(v) => if forall|i: int| 0 <= i < v.len() ==> is_white_space(#[trigger] v[i]) {
                    config.exit_on_stdin_close
                } else {
                    trimmed(v) == if config.exit_on_stdin_close {
                        "true"@
                    } else {
                        "false"@
                    }
                },
            }
        },
{
    if let Some(v) = environment.uid {
        law_trimming_takes_the_white_space_at_both_ends(v);
    }
    if let Some(v) = environment.db_pull_delay {
        law_trimming_takes_the_white_space_at_both_ends(v);
    }
    if let Some(v) = environment.exit_on_stdin_close {
        law_trimming_takes_the_white_space_at_both_ends(v);
        law_truth_values_have_one_text(trimmed(v));
    }
}

/// A configuration fails exactly where a variable is not blank and does not write what
/// it should; the error is that of the first one that does not.
pub proof fn law_only_bad_text_is_refused(
    environment: EnvironmentView,
    app_path: Seq<char>,
    referer: Seq<char>,
    database_key: Seq<char>,
)
    ensures
        ({
            let bad_uid = environment.uid matches Some(v) && i32_value(trimmed(v)) is None && exists|
                i: int,
            |
                0 <= i < v.len() && !is_white_space(#[trigger] v[i]);
            let bad_delay = environment.db_pull_delay matches Some(v) && u64_value(trimmed(v))
                is None && exists|i: int| 0 <= i < v.len() && !is_white_space(#[trigger] v[i]);
            let bad_exit = environment.exit_on_stdin_close matches Some(v) && trimmed(v) != "true"@
                && trimmed(v) != "false"@ && exists|i: int|
                0 <= i < v.len() && !is_white_space(#[trigger] v[i]);
            match configured(environment, app_path, referer, database_key) {
                Ok(_) => !bad_uid && !bad_delay && !bad_exit,
                Err(ConfigError::InvalidInteger) => bad_uid || bad_delay,
                Err(ConfigError::InvalidBoolean) => bad_exit && !bad_uid && !bad_delay,
                Err(_) => false,
            }
        }),
{
    if let Some(v) = environment.uid {
        law_trimming_takes_the_white_space_at_both_ends(v);
    }
    if let Some(v) = environment.db_pull_delay {
        law_trimming_takes_the_white_space_at_both_ends(v);
    }
    if let Some(v) = environment.exit_on_stdin_close {
        law_trimming_takes_the_white_space_at_both_ends(v);
        law_truth_values_have_one_text(trimmed(v));
    }
}

// ---------------------------------------------------------------------------
// The application's files
// ---------------------------------------------------------------------------

/// The directory that is found exists, and none before it does; none is found exactly
/// where none exists.
pub proof fn law_the_first_directory_that_exists_is_found(uid: Option<i32>, exists: Seq<bool>)
    requires
        exists.len() == 3,
    ensures
        first_existing(uid, exists) matches Some(path) ==> exists|i: int|
            0 <= i < 3 && #[trigger] exists[i] && path == app_paths(uid)[i] && forall|j: int|
                0 <= j < i ==> !#[trigger] exists[j],
        first_existing(uid, exists) is None <==> forall|i: int| 0 <= i < 3 ==> !#[trigger] exists[i],
{
    assert(exists[0] || !exists[0]);
    assert(exists[1] || !exists[1]);
    assert(exists[2] || !exists[2]);
}

/// The directories are the application's own, that of the user, and that of the first
/// user; without a user, that of the first user stands for it. Different users have
/// different directories.
pub proof fn law_users_have_their_own_directories(uid: i32, other: i32)
    ensures
        app_paths(Some(uid)).len() == 3,
        app_paths(Some(uid))[0] == "/data/data/com.kakao.talk/"@,
        app_paths(Some(uid))[1] == "/data_mirror/data_ce/null/"@ + decimal(uid as int)
            + "/com.kakao.talk/"@,
        app_paths(Some(uid))[2] == app_paths(Some(0))[1],
        app_paths(None) == app_paths(Some(0)),
        app_paths(Some(uid))[1] == app_paths(Some(other))[1] ==> uid == other,
{
    reveal_strlit("/data_mirror/data_ce/null/");
    reveal_strlit("/com.kakao.talk/");
    reveal_strlit("/data_mirror/data_ce/null/0/com.kakao.talk/");
    let front = "/data_mirror/data_ce/null/"@;
    let back = "/com.kakao.talk/"@;
    assert(decimal(0) =~= seq!['0']);
    assert(front + seq!['0'] + back =~= "/data_mirror/data_ce/null/0/com.kakao.talk/"@);
    if app_paths(Some(uid))[1] == app_paths(Some(other))[1] {
        let a = decimal(uid as int);
        let b = decimal(other as int);
        assert(a.len() == b.len()) by {
            assert((front + a + back).len() == (front + b + back).len());
        }
        assert(a =~= b) by {
            assert((front + a + back).subrange(front.len() as int, (front.len() + a.len()) as int)
                =~= a);
            assert((front + b + back).subrange(front.len() as int, (front.len() + b.len()) as int)
                =~= b);
        }
        law_decimal_reads_back(uid);
        law_decimal_reads_back(other);
    }
}

/// A referer is found exactly where there is a start tag. It is what stands after the
/// first one: it holds no tag, and it ends where the next tag or the end of the text is.
pub proof fn law_a_referer_stands_between_tags(content: Seq<char>) -> (around: (
    Seq<char>,
    Seq<char>,
))
    ensures
        referer_in(content) is None <==> !occurs(
            content,
            "<string name=\"NotificationReferer\">"@,
        ),
        referer_in(content) matches Some(value) ==> {
            &&& content == around.0 + "<string name=\"NotificationReferer\">"@ + value + around.1
            &&& forall|i: int| 0 <= i < around.0.len() ==> !#[trigger] occurs_at(
                content,
                "<string name=\"NotificationReferer\">"@,
                i,
            )
            &&& !occurs(value, "<string name=\"NotificationReferer\">"@)
            &&& !occurs(value, "</string>"@)
            &&& around.1.len() == 0 || occurs_at(
                around.1,
                "<string name=\"NotificationReferer\">"@,
                0,
            ) || occurs_at(around.1, "</string>"@, 0)
        },
{
    let start = REFERER_START@;
    let end = REFERER_END@;
    law_texts_split_at_the_first_needle(content, start);
    if let Some(rest) = after(content, start) {
        let prefix = before(content, start);
        law_texts_split_at_the_first_needle(rest, start);
        let piece = before(rest, start);
        law_texts_split_at_the_first_needle(piece, end);
        let value = before(piece, end);
        let behind_piece = match after(rest, start) {
            Some(more) => start + more,
            None => Seq::empty(),
        };
        let behind_value = match after(piece, end) {
            Some(more) => end + more,
            None => Seq::empty(),
        };
        assert(rest =~= piece + behind_piece);
        assert(piece =~= value + behind_value);
        let suffix = behind_value + behind_piece;
        assert(content =~= prefix + start + value + suffix);
        assert forall|i: int| 0 <= i < prefix.len() implies !#[trigger] occurs_at(
            content,
            start,
            i,
        ) by {
            if i + start.len() <= content.len() {
                assert(content.subrange(i, i + start.len()) != start);
            }
        }
        assert(!occurs(value, start)) by {
            if occurs(value, start) {
                let i = choose|i: int| occurs_at(value, start, i);
                reveal_strlit("<string name=\"NotificationReferer\">");
                assert(rest.subrange(i, i + start.len()) =~= value.subrange(i, i + start.len()));
                assert(i < piece.len());
            }
        }
        assert(!occurs(value, end)) by {
            if occurs(value, end) {
                let i = choose|i: int| occurs_at(value, end, i);
                reveal_strlit("</string>");
                assert(piece.subrange(i, i + end.len()) =~= value.subrange(i, i + end.len()));
                assert(i < value.len());
            }
        }
        if behind_value.len() > 0 {
            assert(suffix.subrange(0, end.len() as int) =~= end);
        } else if behind_piece.len() > 0 {
            assert(suffix.subrange(0, start.len() as int) =~= start);
        }
        (prefix, suffix)
    } else {
        (Seq::empty(), Seq::empty())
    }
}

// ---------------------------------------------------------------------------
// Loading
// ---------------------------------------------------------------------------

/// A configuration that is loaded is the one that the environment asks for, with the
/// first directory that exists for the user in that environment, the referer in the
/// preferences and the key that was given. What is missing first decides the error.
pub proof fn law_loading_uses_what_was_looked_up(
    environment: EnvironmentView,
    exists: Seq<bool>,
    preferences: Option<Seq<char>>,
    database_key: Result<Seq<char>, KeyError>,
)
    requires
        exists.len() == 3,
    ensures
        ({
            let bad_uid = environment.uid matches Some(v) && i32_value(trimmed(v)) is None && exists|
                i: int,
            |
                0 <= i < v.len() && !is_white_space(#[trigger] v[i]);
            let bad_delay = environment.db_pull_delay matches Some(v) && u64_value(trimmed(v))
                is None && exists|i: int| 0 <= i < v.len() && !is_white_space(#[trigger] v[i]);
            let none_exists = forall|i: int| 0 <= i < 3 ==> !#[trigger] exists[i];
            let no_referer = preferences matches Some(text) ==> referer_in(text) is None;
            match loaded(environment, exists, preferences, database_key) {
                Ok(config) => {
                    &&& configured(
                        environment,
                        config.app_path,
                        config.referer,
                        config.database_key,
                    ) == Ok::<_, ConfigError>(config)
                    &&& exists|i: int|
                        0 <= i < 3 && #[trigger] exists[i] && config.app_path == app_paths(
                            config.uid,
                        )[i] && forall|j: int| 0 <= j < i ==> !#[trigger] exists[j]
                    &&& preferences matches Some(text) && referer_in(text) == Some(config.referer)
                    &&& database_key == Ok::<_, KeyError>(config.database_key)
                },
                Err(ConfigError::NoAppPath) => !bad_uid && none_exists,
                Err(ConfigError::NoReferer) => !bad_uid && !none_exists && no_referer,
                Err(ConfigError::NoKey(error)) => {
                    &&& !bad_uid && !none_exists && !no_referer
                    &&& database_key == Err::<Seq<char>, _>(error)
                },
                Err(ConfigError::InvalidInteger) => {
                    bad_uid || !none_exists && !no_referer && database_key is Ok && bad_delay
                },
                Err(ConfigError::InvalidBoolean) => {
                    &&& !bad_uid && !none_exists && !no_referer && database_key is Ok && !bad_delay
                    &&& environment.exit_on_stdin_close matches Some(v) && trimmed(v) != "true"@
                        && trimmed(v) != "false"@
                },
            }
        }),
{
    if let Some(v) = environment.uid {
        law_trimming_takes_the_white_space_at_both_ends(v);
    }
    if let Some(v) = environment.db_pull_delay {
        law_trimming_takes_the_white_space_at_both_ends(v);
    }
    if let Some(v) = environment.exit_on_stdin_close {
        law_truth_values_have_one_text(trimmed(v));
    }
    assert(exists[0] || !exists[0]);
    assert(exists[1] || !exists[1]);
    assert(exists[2] || !exists[2]);
}

} // verus!
