//! Which variable each setting comes from.

use crate::config;
use crate::config::UserConfigView;
use crate::text;
use vstd::prelude::*;
use vstd::string::*;

verus! {

/// Whether no variable is called `name`.
pub open spec fn unset(vars: Seq<(Seq<char>, Seq<char>)>, name: Seq<char>) -> bool {
    forall|i: int| 0 <= i < vars.len() ==> (#[trigger] vars[i]).0 != name
}

/// Whether the variable at `i` is the first of its name.
pub open spec fn leads(vars: Seq<(Seq<char>, Seq<char>)>, i: int) -> bool {
    &&& 0 <= i < vars.len()
    &&& forall|j: int| 0 <= j < i ==> (#[trigger] vars[j]).0 != vars[i].0
}

/// A setting is the value of the first variable of its name.
pub proof fn law_setting_is_the_value(vars: Seq<(Seq<char>, Seq<char>)>, i: int)
    requires
        leads(vars, i),
    ensures
        config::setting(vars, vars[i].0) == Some(vars[i].1),
    decreases vars.len(),
{
    if i > 0 {
        let rest = vars.drop_first();
        assert(vars[0].0 != vars[i].0);
        assert forall|j: int| 0 <= j < i - 1 implies (#[trigger] rest[j]).0 != rest[i - 1].0 by {
            assert(vars[j + 1].0 != vars[i].0);
        }
        law_setting_is_the_value(rest, i - 1);
    }
}

/// There is no setting without a variable of its name, and one with it.
pub proof fn law_unset_variable_has_no_value(vars: Seq<(Seq<char>, Seq<char>)>, name: Seq<char>)
    ensures
        config::setting(vars, name) is None <==> unset(vars, name),
    decreases vars.len(),
{
    if vars.len() > 0 {
        let rest = vars.drop_first();
        law_unset_variable_has_no_value(rest, name);
        if vars[0].0 != name {
            if unset(rest, name) {
                assert forall|i: int| 0 <= i < vars.len() implies (#[trigger] vars[i]).0
                    != name by {
                    if i > 0 {
                        assert(rest[i - 1].0 != name);
                    }
                }
            }
            if unset(vars, name) {
                assert forall|i: int| 0 <= i < rest.len() implies (#[trigger] rest[i]).0
                    != name by {
                    assert(vars[i + 1].0 != name);
                }
            }
        }
    }
}

/// Another value of one variable leaves the settings of the others as they are.
pub proof fn law_other_settings_stay(
    vars: Seq<(Seq<char>, Seq<char>)>,
    i: int,
    value: Seq<char>,
    name: Seq<char>,
)
    requires
        0 <= i < vars.len(),
        name != vars[i].0,
    ensures
        config::setting(vars.update(i, (vars[i].0, value)), name) == config::setting(vars, name),
    decreases vars.len(),
{
    let changed = vars.update(i, (vars[i].0, value));
    if i == 0 {
        assert(changed.drop_first() =~= vars.drop_first());
    } else {
        assert(changed[0] == vars[0]);
        assert(changed.drop_first() =~= vars.drop_first().update(
            i - 1,
            (vars.drop_first()[i - 1].0, value),
        ));
        law_other_settings_stay(vars.drop_first(), i - 1, value, name);
    }
}

/// Each setting is the value of the variable of its own name: whichever variable is looked
/// at, the field that is named for it holds its value. Numbers are read in decimal, and one
/// that is too large for its setting leaves the default.
#[verifier::spinoff_prover]
pub proof fn law_each_setting_is_its_variable(
    vars: Seq<(Seq<char>, Seq<char>)>,
    users: Option<Seq<UserConfigView>>,
    i: int,
    n: nat,
)
    requires
        leads(vars, i),
    ensures
        ({
            let (name, value) = vars[i];
            let c = config::configured(vars, users);
            &&& name == "FRESHRSS_URL"@ ==> c.freshrss.url == value
            &&& name == "QDRANT_URL"@ ==> c.qdrant.url == value
            &&& name == "QDRANT_COLLECTION"@ ==> c.qdrant.collection == value
            &&& name == "EMBEDDING_MODEL"@ ==> c.qdrant.embedding_model == value
            &&& name == "EMBEDDING_URL"@ ==> c.qdrant.embedding_url == value
            &&& name == "OLLAMA_URL"@ ==> c.ollama.url == value
            &&& name == "LLM_MODEL"@ ==> c.ollama.model == value
            &&& name == "LLM_PROMPT"@ ==> c.ollama.summarizer_prompt == value
            &&& name == "ARTICLE_SUMMARY_PROMPT"@ ==> c.ollama.article_summary_prompt == value
            &&& name == "LIBRETRANSLATE_URL"@ ==> c.libretranslate.url == value
            &&& name == "SMTP_HOST"@ ==> c.smtp.host == value
            &&& name == "SMTP_USERNAME"@ ==> c.smtp.username == value
            &&& name == "SMTP_PASSWORD"@ ==> c.smtp.password == value
            &&& name == "SMTP_FROM"@ ==> c.smtp.from == value
            &&& name == "SMTP_TLS_MODE"@ ==> c.smtp.tls_mode == value
            &&& name == "CRON_TIME"@ ==> c.cron.time == value
            &&& name == "CRON_TIMEZONE"@ ==> c.cron.timezone == value
            &&& name == "FRESHRSS_API_PASSWORD"@ ==> c.freshrss.api_password == value
            &&& name == "QDRANT_API_KEY"@ ==> c.qdrant.api_key == Some(value)
            &&& name == "LIBRETRANSLATE_API_KEY"@ ==> c.libretranslate.api_key == Some(value)
            &&& name == "EMBEDDING_DIM"@ && value == text::decimal(n) && n <= usize::MAX ==> c.qdrant.embedding_dim == n
            &&& name == "RAG_TOP_K"@ && value == text::decimal(n) && n <= usize::MAX ==> c.qdrant.top_k == n
            &&& name == "SMTP_PORT"@ && value == text::decimal(n) && n <= 65535 ==> c.smtp.port == n
            &&& name == "CONTEXT_WINDOW_DAYS"@ && value == text::decimal(n) && n <= i64::MAX
                ==> c.qdrant.context_window_days == n
            &&& name == "CONTEXT_WINDOW_DAYS"@ && value == seq!['-'] + text::decimal(n) && n
                <= i64::MAX ==> c.qdrant.context_window_days == -(n as int)
            &&& name == "EMBEDDING_DIM"@ && value == text::decimal(n) && n > usize::MAX
                ==> c.qdrant.embedding_dim == 768
            &&& name == "RAG_TOP_K"@ && value == text::decimal(n) && n > usize::MAX
                ==> c.qdrant.top_k == 5
            &&& name == "SMTP_PORT"@ && value == text::decimal(n) && n > 65535 ==> c.smtp.port
                == 587
            &&& name == "CONTEXT_WINDOW_DAYS"@ && value == text::decimal(n) && n > i64::MAX
                ==> c.qdrant.context_window_days == 30
            &&& name == "FRESHRSS_PASSWORD"@ && unset(vars, "FRESHRSS_API_PASSWORD"@)
                ==> c.freshrss.api_password == value
            &&& name == "OLLAMA_URL"@ && unset(vars, "EMBEDDING_URL"@) ==> c.qdrant.embedding_url
                == value
            &&& name == "DEFAULT_EMAIL"@ && users is None ==> c.users.len() == 1
                && c.users[0].email == value
        }),
{
    law_setting_is_the_value(vars, i);
    law_unset_variable_has_no_value(vars, "FRESHRSS_API_PASSWORD"@);
    law_unset_variable_has_no_value(vars, "EMBEDDING_URL"@);
    text::law_decimal_reads_back(n);
    text::law_negative_reads_back(n);
}

/// A variable that is not set leaves its setting at its default.
#[verifier::spinoff_prover]
pub proof fn law_unset_variables_have_defaults(
    vars: Seq<(Seq<char>, Seq<char>)>,
    users: Option<Seq<UserConfigView>>,
)
    ensures
        ({
            let c = config::configured(vars, users);
            &&& unset(vars, "QDRANT_COLLECTION"@) ==> c.qdrant.collection == "articles"@
            &&& unset(vars, "EMBEDDING_MODEL"@) ==> c.qdrant.embedding_model == "nomic-embed-text"@
            &&& unset(vars, "OLLAMA_URL"@) ==> c.ollama.url == "http://localhost:11434"@
            &&& unset(vars, "LLM_MODEL"@) ==> c.ollama.model == "llama3.1"@
            &&& unset(vars, "LLM_PROMPT"@) ==> c.ollama.summarizer_prompt == config::DEFAULT_PROMPT@
            &&& unset(vars, "ARTICLE_SUMMARY_PROMPT"@) ==> c.ollama.article_summary_prompt == config::DEFAULT_ARTICLE_PROMPT@
            &&& unset(vars, "SMTP_TLS_MODE"@) ==> c.smtp.tls_mode == "starttls"@
            &&& unset(vars, "CRON_TIME"@) ==> c.cron.time == "06:00"@
            &&& unset(vars, "CRON_TIMEZONE"@) ==> c.cron.timezone == "UTC"@
            &&& unset(vars, "EMBEDDING_URL"@) ==> c.qdrant.embedding_url == c.ollama.url
            &&& unset(vars, "QDRANT_API_KEY"@) ==> c.qdrant.api_key is None
            &&& unset(vars, "LIBRETRANSLATE_API_KEY"@) ==> c.libretranslate.api_key is None
            &&& unset(vars, "EMBEDDING_DIM"@) ==> c.qdrant.embedding_dim == 768
            &&& unset(vars, "RAG_TOP_K"@) ==> c.qdrant.top_k == 5
            &&& unset(vars, "SMTP_PORT"@) ==> c.smtp.port == 587
            &&& unset(vars, "CONTEXT_WINDOW_DAYS"@) ==> c.qdrant.context_window_days == 30
        }),
{
    law_unset_variable_has_no_value(vars, "QDRANT_COLLECTION"@);
    law_unset_variable_has_no_value(vars, "EMBEDDING_MODEL"@);
    law_unset_variable_has_no_value(vars, "EMBEDDING_URL"@);
    law_unset_variable_has_no_value(vars, "OLLAMA_URL"@);
    law_unset_variable_has_no_value(vars, "LLM_MODEL"@);
    law_unset_variable_has_no_value(vars, "LLM_PROMPT"@);
    law_unset_variable_has_no_value(vars, "ARTICLE_SUMMARY_PROMPT"@);
    law_unset_variable_has_no_value(vars, "SMTP_TLS_MODE"@);
    law_unset_variable_has_no_value(vars, "CRON_TIME"@);
    law_unset_variable_has_no_value(vars, "CRON_TIMEZONE"@);
    law_unset_variable_has_no_value(vars, "QDRANT_API_KEY"@);
    law_unset_variable_has_no_value(vars, "LIBRETRANSLATE_API_KEY"@);
    law_unset_variable_has_no_value(vars, "EMBEDDING_DIM"@);
    law_unset_variable_has_no_value(vars, "RAG_TOP_K"@);
    law_unset_variable_has_no_value(vars, "SMTP_PORT"@);
    law_unset_variable_has_no_value(vars, "CONTEXT_WINDOW_DAYS"@);
}

/// A number that cannot be read, or is too large, counts as if it were not set.
#[verifier::spinoff_prover]
pub proof fn law_unreadable_numbers_have_defaults(
    vars: Seq<(Seq<char>, Seq<char>)>,
    users: Option<Seq<UserConfigView>>,
    i: int,
    k: int,
    n: nat,
)
    requires
        leads(vars, i),
        0 <= k < vars[i].1.len() && !text::digit(vars[i].1[k]) && (k > 0 || (vars[i].1[0] != '+'
            && vars[i].1[0] != '-')) || vars[i].1 == text::decimal(n) && n > u64::MAX,
    ensures
        ({
            let name = vars[i].0;
            let c = config::configured(vars, users);
            &&& name == "EMBEDDING_DIM"@ ==> c.qdrant.embedding_dim == 768
            &&& name == "RAG_TOP_K"@ ==> c.qdrant.top_k == 5
            &&& name == "SMTP_PORT"@ ==> c.smtp.port == 587
            &&& name == "CONTEXT_WINDOW_DAYS"@ ==> c.qdrant.context_window_days == 30
        }),
{
    law_setting_is_the_value(vars, i);
    let value = vars[i].1;
    if value == text::decimal(n) && n > u64::MAX {
        text::law_decimal_reads_back(n);
        text::law_negative_reads_back(n);
    } else {
        text::law_only_digits_are_numbers(value, k);
    }
}

/// Changing one variable alone changes its own settings alone: every other setting stays as
/// it is.
#[verifier::spinoff_prover]
pub proof fn law_one_variable_changes_its_settings_alone(
    vars: Seq<(Seq<char>, Seq<char>)>,
    users: Option<Seq<UserConfigView>>,
    i: int,
    value: Seq<char>,
)
    requires
        0 <= i < vars.len(),
    ensures
        ({
            let name = vars[i].0;
            let c = config::configured(vars, users);
            let d = config::configured(vars.update(i, (name, value)), users);
            &&& name != "FRESHRSS_URL"@ ==> d.freshrss.url == c.freshrss.url
            &&& name != "QDRANT_URL"@ ==> d.qdrant.url == c.qdrant.url
            &&& name != "QDRANT_COLLECTION"@ ==> d.qdrant.collection == c.qdrant.collection
            &&& name != "EMBEDDING_MODEL"@ ==> d.qdrant.embedding_model == c.qdrant.embedding_model
            &&& name != "EMBEDDING_URL"@ && name != "OLLAMA_URL"@ ==> d.qdrant.embedding_url == c.qdrant.embedding_url
            &&& name != "OLLAMA_URL"@ ==> d.ollama.url == c.ollama.url
            &&& name != "LLM_MODEL"@ ==> d.ollama.model == c.ollama.model
            &&& name != "LLM_PROMPT"@ ==> d.ollama.summarizer_prompt == c.ollama.summarizer_prompt
            &&& name != "ARTICLE_SUMMARY_PROMPT"@ ==> d.ollama.article_summary_prompt == c.ollama.article_summary_prompt
            &&& name != "LIBRETRANSLATE_URL"@ ==> d.libretranslate.url == c.libretranslate.url
            &&& name != "SMTP_HOST"@ ==> d.smtp.host == c.smtp.host
            &&& name != "SMTP_USERNAME"@ ==> d.smtp.username == c.smtp.username
            &&& name != "SMTP_PASSWORD"@ ==> d.smtp.password == c.smtp.password
            &&& name != "SMTP_FROM"@ ==> d.smtp.from == c.smtp.from
            &&& name != "SMTP_TLS_MODE"@ ==> d.smtp.tls_mode == c.smtp.tls_mode
            &&& name != "CRON_TIME"@ ==> d.cron.time == c.cron.time
            &&& name != "CRON_TIMEZONE"@ ==> d.cron.timezone == c.cron.timezone
            &&& name != "FRESHRSS_API_PASSWORD"@ && name != "FRESHRSS_PASSWORD"@ ==> d.freshrss.api_password == c.freshrss.api_password
            &&& name != "QDRANT_API_KEY"@ ==> d.qdrant.api_key == c.qdrant.api_key
            &&& name != "LIBRETRANSLATE_API_KEY"@ ==> d.libretranslate.api_key == c.libretranslate.api_key
            &&& name != "EMBEDDING_DIM"@ ==> d.qdrant.embedding_dim == c.qdrant.embedding_dim
            &&& name != "RAG_TOP_K"@ ==> d.qdrant.top_k == c.qdrant.top_k
            &&& name != "SMTP_PORT"@ ==> d.smtp.port == c.smtp.port
            &&& name != "CONTEXT_WINDOW_DAYS"@ ==> d.qdrant.context_window_days
                == c.qdrant.context_window_days
            &&& name != "DEFAULT_EMAIL"@ || users is Some ==> d.users == c.users
        }),
{
    let changed = vars.update(i, (vars[i].0, value));
    assert forall|name: Seq<char>| name != vars[i].0 implies #[trigger] config::setting(
        changed,
        name,
    ) == config::setting(vars, name) by {
        law_other_settings_stay(vars, i, value, name);
    }
}

/// The users are those that are listed. Without a list there is one, the administrator of
/// the feed reader, with the address that is set for it.
pub proof fn law_users_are_those_listed(
    vars: Seq<(Seq<char>, Seq<char>)>,
    users: Option<Seq<UserConfigView>>,
)
    ensures
        users matches Some(listed) ==> config::configured(vars, users).users == listed,
        users is None ==> ({
            let all = config::configured(vars, users).users;
            &&& all.len() == 1
            &&& all[0].name == "Default"@
            &&& all[0].freshrss_username == "admin"@
            &&& all[0].freshrss_api_password is None
            &&& all[0].target_language is None
            &&& all[0].shared_feeds is None
            &&& Some(all[0].email) == config::setting(vars, "DEFAULT_EMAIL"@) || unset(
                vars,
                "DEFAULT_EMAIL"@,
            )
        }),
{
    law_unset_variable_has_no_value(vars, "DEFAULT_EMAIL"@);
}

/// Whether there is an API password, under the name it has or the one it had before.
pub open spec fn password_set(vars: Seq<(Seq<char>, Seq<char>)>) -> bool {
    !unset(vars, "FRESHRSS_API_PASSWORD"@) || !unset(vars, "FRESHRSS_PASSWORD"@)
}

/// The configuration is refused for the first required variable that is not set, and for
/// none where all are; the default user's address is required where no users are listed.
#[verifier::spinoff_prover]
pub proof fn law_first_missing_variable_is_named(
    vars: Seq<(Seq<char>, Seq<char>)>,
    users: Option<Seq<UserConfigView>>,
)
    ensures
        config::refused_for(vars, users) == if unset(vars, "FRESHRSS_URL"@) {
            Some("FRESHRSS_URL"@)
        } else if !password_set(vars) {
            Some("FRESHRSS_API_PASSWORD"@)
        } else if unset(vars, "QDRANT_URL"@) {
            Some("QDRANT_URL"@)
        } else if unset(vars, "LIBRETRANSLATE_URL"@) {
            Some("LIBRETRANSLATE_URL"@)
        } else if unset(vars, "SMTP_HOST"@) {
            Some("SMTP_HOST"@)
        } else if unset(vars, "SMTP_USERNAME"@) {
            Some("SMTP_USERNAME"@)
        } else if unset(vars, "SMTP_PASSWORD"@) {
            Some("SMTP_PASSWORD"@)
        } else if unset(vars, "SMTP_FROM"@) {
            Some("SMTP_FROM"@)
        } else if users is None && unset(vars, "DEFAULT_EMAIL"@) {
            Some("DEFAULT_EMAIL"@)
        } else {
            None
        },
{
    lemma_required_names_differ();
    law_unset_variable_has_no_value(vars, "FRESHRSS_URL"@);
    law_unset_variable_has_no_value(vars, "FRESHRSS_API_PASSWORD"@);
    law_unset_variable_has_no_value(vars, "FRESHRSS_PASSWORD"@);
    law_unset_variable_has_no_value(vars, "QDRANT_URL"@);
    law_unset_variable_has_no_value(vars, "LIBRETRANSLATE_URL"@);
    law_unset_variable_has_no_value(vars, "SMTP_HOST"@);
    law_unset_variable_has_no_value(vars, "SMTP_USERNAME"@);
    law_unset_variable_has_no_value(vars, "SMTP_PASSWORD"@);
    law_unset_variable_has_no_value(vars, "SMTP_FROM"@);
    law_unset_variable_has_no_value(vars, "DEFAULT_EMAIL"@);
    let names = config::required_variables();
    let n: int = if unset(vars, "FRESHRSS_URL"@) {
        0
    } else if !password_set(vars) {
        1
    } else if unset(vars, "QDRANT_URL"@) {
        2
    } else if unset(vars, "LIBRETRANSLATE_URL"@) {
        3
    } else if unset(vars, "SMTP_HOST"@) {
        4
    } else if unset(vars, "SMTP_USERNAME"@) {
        5
    } else if unset(vars, "SMTP_PASSWORD"@) {
        6
    } else if unset(vars, "SMTP_FROM"@) {
        7
    } else {
        8
    };
    config::lemma_missing_from(vars, names, n);
}

/// The password's name is longer than the other required names.
proof fn lemma_required_names_differ()
    ensures
        "FRESHRSS_API_PASSWORD"@ != "FRESHRSS_URL"@,
        "FRESHRSS_API_PASSWORD"@ != "QDRANT_URL"@,
        "FRESHRSS_API_PASSWORD"@ != "LIBRETRANSLATE_URL"@,
        "FRESHRSS_API_PASSWORD"@ != "SMTP_HOST"@,
        "FRESHRSS_API_PASSWORD"@ != "SMTP_USERNAME"@,
        "FRESHRSS_API_PASSWORD"@ != "SMTP_PASSWORD"@,
        "FRESHRSS_API_PASSWORD"@ != "SMTP_FROM"@,
{
    reveal_strlit("FRESHRSS_API_PASSWORD");
    reveal_strlit("FRESHRSS_URL");
    reveal_strlit("QDRANT_URL");
    reveal_strlit("LIBRETRANSLATE_URL");
    reveal_strlit("SMTP_HOST");
    reveal_strlit("SMTP_USERNAME");
    reveal_strlit("SMTP_PASSWORD");
    reveal_strlit("SMTP_FROM");
    assert("FRESHRSS_API_PASSWORD"@.len() == 21);
    assert("FRESHRSS_URL"@.len() == 12 && "QDRANT_URL"@.len() == 10);
    assert("LIBRETRANSLATE_URL"@.len() == 18 && "SMTP_HOST"@.len() == 9);
    assert("SMTP_USERNAME"@.len() == 13 && "SMTP_PASSWORD"@.len() == 13);
    assert("SMTP_FROM"@.len() == 9);
}

/// What is reported of a missing variable names it.
pub proof fn law_missing_variable_is_named(variable: Seq<char>)
    ensures
        text::occurs(variable, config::missing_message(variable)),
        variable != "DEFAULT_EMAIL"@ ==> config::missing_message(variable)
            == "Environment variable "@ + variable + " is not set"@,
        variable == "DEFAULT_EMAIL"@ ==> config::missing_message(variable)
            == "Environment variable "@ + variable
            + " is not set (required when USERS is not provided)"@,
{
    let tail = if variable == "DEFAULT_EMAIL"@ {
        " is not set (required when USERS is not provided)"@
    } else {
        " is not set"@
    };
    text::lemma_occurs_between("Environment variable "@, variable, tail);
}

} // verus!
