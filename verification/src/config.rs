//! Configuration, read from environment variables.

use crate::http;
use crate::ordering;
use crate::text;
use vstd::prelude::*;
use vstd::string::*;

verus! {

pub const DEFAULT_PROMPT: &'static str = "You are an expert RSS digest summarizer.

## Context from Today's Events and Predictions
{rag_context}

## Article Summaries (for reference)
{articles}

## Your Task
Create an overall digest paragraph (max 200 words) that connects the articles together narratively, referencing the context from today's events and predictions. Include the link to each article after its summary if needed.

Format:
**Daily Digest: {date}**

**Article Summaries:**
{articles}

**Overall Summary:**
{overall_digest_paragraph}

Output plain Markdown, no extra formatting.";

pub const DEFAULT_ARTICLE_PROMPT: &'static str = "## Context: Related Past Articles
{rag_context}

## New Article
{article_title}
{article_content}

## Your Task
Write a one-sentence summary (max 30 words) of the article, referencing any relevant past context. Just return the summary text, nothing else.";

/// The environment variables of the process.
#[derive(Debug, Clone)]
pub struct Env {
    pub vars: Vec<(String, String)>,
}

/// The value of the first variable called `name`.
pub open spec fn setting(vars: Seq<(Seq<char>, Seq<char>)>, name: Seq<char>) -> Option<Seq<char>>
    decreases vars.len(),
{
    if vars.len() == 0 {
        None
    } else if vars[0].0 == name {
        Some(vars[0].1)
    } else {
        setting(vars.drop_first(), name)
    }
}

/// The value of the variable `name`, or else `default`.
pub open spec fn setting_or(
    vars: Seq<(Seq<char>, Seq<char>)>,
    name: Seq<char>,
    default: Seq<char>,
) -> Seq<char> {
    match setting(vars, name) {
        Some(v) => v,
        None => default,
    }
}

/// The value of the variable `name` where it is a number of at most `max`, or else `default`.
pub open spec fn number_or(
    vars: Seq<(Seq<char>, Seq<char>)>,
    name: Seq<char>,
    max: int,
    default: int,
) -> int {
    match setting(vars, name) {
        Some(v) => match text::unsigned_up_to(v, max) {
            Some(n) => n,
            None => default,
        },
        None => default,
    }
}

impl View for Env {
    type V = Seq<(Seq<char>, Seq<char>)>;

    open spec fn view(&self) -> Seq<(Seq<char>, Seq<char>)> {
        http::pairs(self.vars@)
    }
}

impl Env {
    /// The value of a variable.
    pub fn get(&self, name: &str) -> (r: Option<String>)
        ensures
            text::text_of(r) == setting(self@, name@),
    {
        let mut i: usize = 0;
        assert(self@.skip(0) == self@);
        while i < self.vars.len()
            invariant
                i <= self.vars@.len(),
                setting(self@.skip(i as int), name@) == setting(self@, name@),
            decreases self.vars@.len() - i,
        {
            assert(self@.skip(i as int).drop_first() == self@.skip(i + 1));
            if text::same_text(self.vars[i].0.as_str(), name) {
                return Some(self.vars[i].1.clone());
            }
            i = i + 1;
        }
        None
    }

    fn get_or(&self, name: &str, default: &str) -> (r: String)
        ensures
            r@ == setting_or(self@, name@, default@),
    {
        match self.get(name) {
            Some(v) => v,
            None => default.to_owned(),
        }
    }

    fn number_or(&self, name: &str, max: u64, default: u64) -> (r: u64)
        requires
            default <= max,
        ensures
            r == number_or(self@, name@, max as int, default as int),
            r <= max,
    {
        match self.get(name) {
            Some(v) => match text::parse_unsigned(v.as_str(), max) {
                Some(n) => n,
                None => default,
            },
            None => default,
        }
    }

    /// The value of a variable that has to be set.
    fn required(&self, name: &str) -> (r: Result<String, ConfigError>)
        ensures
            match r {
                Ok(v) => setting(self@, name@) == Some(v@),
                Err(e) => setting(self@, name@) is None && e.variable@ == name@,
            },
    {
        match self.get(name) {
            Some(v) => Ok(v),
            None => Err(ConfigError { variable: name.to_owned() }),
        }
    }
}

/// A variable that has to be set and is not.
#[derive(Debug, Clone)]
pub struct ConfigError {
    pub variable: String,
}

/// What `ConfigError::message` says of `variable`.
pub open spec fn missing_message(variable: Seq<char>) -> Seq<char> {
    "Environment variable "@ + variable + if variable == "DEFAULT_EMAIL"@ {
        " is not set (required when USERS is not provided)"@
    } else {
        " is not set"@
    }
}

impl ConfigError {
    pub fn message(&self) -> (r: String)
        ensures
            r@ == missing_message(self.variable@),
    {
        let tail = if text::same_text(self.variable.as_str(), "DEFAULT_EMAIL") {
            " is not set (required when USERS is not provided)"
        } else {
            " is not set"
        };
        "Environment variable ".to_owned().concat(self.variable.as_str()).concat(tail)
    }
}

#[derive(Debug, Clone)]
pub struct FreshRSSConfig {
    pub url: String,
    /// API password of the users that have none of their own.
    pub api_password: String,
}

#[derive(Debug, Clone)]
pub struct QdrantConfig {
    pub url: String,
    pub api_key: Option<String>,
    pub collection: String,
    /// Name of the embedding model, such as `nomic-embed-text`.
    pub embedding_model: String,
    /// Base URL of the OpenAI-compatible embedding endpoint.
    pub embedding_url: String,
    /// Vector dimension of the collection.
    pub embedding_dim: usize,
    pub context_window_days: i64,
    pub top_k: usize,
}

#[derive(Debug, Clone)]
pub struct LibreTranslateConfig {
    pub url: String,
    pub api_key: Option<String>,
}

#[derive(Debug, Clone)]
pub struct OllamaConfig {
    pub url: String,
    pub model: String,
    pub summarizer_prompt: String,
    pub article_summary_prompt: String,
}

#[derive(Debug, Clone)]
pub struct SmtpConfig {
    pub host: String,
    pub port: u16,
    pub username: String,
    pub password: String,
    pub from: String,
    /// `none`, `starttls` or `tls`.
    pub tls_mode: String,
}

#[derive(Debug, Clone)]
pub struct UserConfig {
    pub name: String,
    pub freshrss_username: String,
    /// The user's own FreshRSS API password; without one the global password is used.
    pub freshrss_api_password: Option<String>,
    pub email: String,
    /// Language (ISO 639-1) to translate summaries to, if any.
    pub target_language: Option<String>,
    /// Reserved for feeds shared between users.
    pub shared_feeds: Option<Vec<String>>,
}

#[derive(Debug, Clone)]
pub struct CronConfig {
    /// Time of day, such as `06:00`.
    pub time: String,
    pub timezone: String,
}

#[derive(Debug)]
pub struct AppConfig {
    pub freshrss: FreshRSSConfig,
    pub qdrant: QdrantConfig,
    pub ollama: OllamaConfig,
    pub libretranslate: LibreTranslateConfig,
    pub smtp: SmtpConfig,
    pub users: Vec<UserConfig>,
    pub cron: CronConfig,
}

#[verifier::ext_equal]
pub struct FreshRSSConfigView {
    pub url: Seq<char>,
    pub api_password: Seq<char>,
}

#[verifier::ext_equal]
pub struct QdrantConfigView {
    pub url: Seq<char>,
    pub api_key: Option<Seq<char>>,
    pub collection: Seq<char>,
    pub embedding_model: Seq<char>,
    pub embedding_url: Seq<char>,
    pub embedding_dim: int,
    pub context_window_days: int,
    pub top_k: int,
}

#[verifier::ext_equal]
pub struct LibreTranslateConfigView {
    pub url: Seq<char>,
    pub api_key: Option<Seq<char>>,
}

#[verifier::ext_equal]
pub struct OllamaConfigView {
    pub url: Seq<char>,
    pub model: Seq<char>,
    pub summarizer_prompt: Seq<char>,
    pub article_summary_prompt: Seq<char>,
}

#[verifier::ext_equal]
pub struct SmtpConfigView {
    pub host: Seq<char>,
    pub port: int,
    pub username: Seq<char>,
    pub password: Seq<char>,
    pub from: Seq<char>,
    pub tls_mode: Seq<char>,
}

#[verifier::ext_equal]
pub struct UserConfigView {
    pub name: Seq<char>,
    pub freshrss_username: Seq<char>,
    pub freshrss_api_password: Option<Seq<char>>,
    pub email: Seq<char>,
    pub target_language: Option<Seq<char>>,
    pub shared_feeds: Option<Seq<Seq<char>>>,
}

#[verifier::ext_equal]
pub struct CronConfigView {
    pub time: Seq<char>,
    pub timezone: Seq<char>,
}

#[verifier::ext_equal]
pub struct AppConfigView {
    pub freshrss: FreshRSSConfigView,
    pub qdrant: QdrantConfigView,
    pub ollama: OllamaConfigView,
    pub libretranslate: LibreTranslateConfigView,
    pub smtp: SmtpConfigView,
    pub users: Seq<UserConfigView>,
    pub cron: CronConfigView,
}

impl View for FreshRSSConfig {
    type V = FreshRSSConfigView;

    open spec fn view(&self) -> FreshRSSConfigView {
        FreshRSSConfigView { url: self.url@, api_password: self.api_password@ }
    }
}

impl View for QdrantConfig {
    type V = QdrantConfigView;

    open spec fn view(&self) -> QdrantConfigView {
        QdrantConfigView {
            url: self.url@,
            api_key: text::text_of(self.api_key),
            collection: self.collection@,
            embedding_model: self.embedding_model@,
            embedding_url: self.embedding_url@,
            embedding_dim: self.embedding_dim as int,
            context_window_days: self.context_window_days as int,
            top_k: self.top_k as int,
        }
    }
}

impl View for LibreTranslateConfig {
    type V = LibreTranslateConfigView;

    open spec fn view(&self) -> LibreTranslateConfigView {
        LibreTranslateConfigView { url: self.url@, api_key: text::text_of(self.api_key) }
    }
}

impl View for OllamaConfig {
    type V = OllamaConfigView;

    open spec fn view(&self) -> OllamaConfigView {
        OllamaConfigView {
            url: self.url@,
            model: self.model@,
            summarizer_prompt: self.summarizer_prompt@,
            article_summary_prompt: self.article_summary_prompt@,
        }
    }
}

impl View for SmtpConfig {
    type V = SmtpConfigView;

    open spec fn view(&self) -> SmtpConfigView {
        SmtpConfigView {
            host: self.host@,
            port: self.port as int,
            username: self.username@,
            password: self.password@,
            from: self.from@,
            tls_mode: self.tls_mode@,
        }
    }
}

impl View for UserConfig {
    type V = UserConfigView;

    open spec fn view(&self) -> UserConfigView {
        UserConfigView {
            name: self.name@,
            freshrss_username: self.freshrss_username@,
            freshrss_api_password: text::text_of(self.freshrss_api_password),
            email: self.email@,
            target_language: text::text_of(self.target_language),
            shared_feeds: match self.shared_feeds {
                Some(feeds) => Some(text::texts(feeds@)),
                None => None,
            },
        }
    }
}

impl View for CronConfig {
    type V = CronConfigView;

    open spec fn view(&self) -> CronConfigView {
        CronConfigView { time: self.time@, timezone: self.timezone@ }
    }
}

impl View for AppConfig {
    type V = AppConfigView;

    open spec fn view(&self) -> AppConfigView {
        AppConfigView {
            freshrss: self.freshrss@,
            qdrant: self.qdrant@,
            ollama: self.ollama@,
            libretranslate: self.libretranslate@,
            smtp: self.smtp@,
            users: ordering::views(self.users@),
            cron: self.cron@,
        }
    }
}

/// The variables that have to be set whatever the users are, in the order in which they
/// are asked for.
pub open spec fn required_variables() -> Seq<Seq<char>> {
    seq![
        "FRESHRSS_URL"@,
        "FRESHRSS_API_PASSWORD"@,
        "QDRANT_URL"@,
        "LIBRETRANSLATE_URL"@,
        "SMTP_HOST"@,
        "SMTP_USERNAME"@,
        "SMTP_PASSWORD"@,
        "SMTP_FROM"@,
    ]
}

/// Whether a required variable has its value: the API password may also come from the
/// variable that held the password before.
pub open spec fn provided(vars: Seq<(Seq<char>, Seq<char>)>, name: Seq<char>) -> bool {
    setting(vars, name) is Some || (name == "FRESHRSS_API_PASSWORD"@ && setting(
        vars,
        "FRESHRSS_PASSWORD"@,
    ) is Some)
}

/// The first of `names` that is not provided.
pub open spec fn first_missing(
    vars: Seq<(Seq<char>, Seq<char>)>,
    names: Seq<Seq<char>>,
) -> Option<Seq<char>>
    decreases names.len(),
{
    if names.len() == 0 {
        None
    } else if !provided(vars, names[0]) {
        Some(names[0])
    } else {
        first_missing(vars, names.drop_first())
    }
}

/// The variable that the configuration is refused for, if any.
pub open spec fn refused_for(
    vars: Seq<(Seq<char>, Seq<char>)>,
    users: Option<Seq<UserConfigView>>,
) -> Option<Seq<char>> {
    match first_missing(vars, required_variables()) {
        Some(name) => Some(name),
        None => if users is None && setting(vars, "DEFAULT_EMAIL"@) is None {
            Some("DEFAULT_EMAIL"@)
        } else {
            None
        },
    }
}

/// The user of a configuration that lists none.
pub open spec fn default_user(email: Seq<char>) -> UserConfigView {
    UserConfigView {
        name: "Default"@,
        freshrss_username: "admin"@,
        freshrss_api_password: None,
        email,
        target_language: None,
        shared_feeds: None,
    }
}

/// The API password: the variable named for it, or else the one that held it before.
pub open spec fn global_api_password(vars: Seq<(Seq<char>, Seq<char>)>) -> Seq<char> {
    match setting(vars, "FRESHRSS_API_PASSWORD"@) {
        Some(p) => p,
        None => setting(vars, "FRESHRSS_PASSWORD"@)->0,
    }
}

/// The length of the context window in days.
pub open spec fn window_days(vars: Seq<(Seq<char>, Seq<char>)>) -> int {
    match setting(vars, "CONTEXT_WINDOW_DAYS"@) {
        Some(v) => match text::signed_value(v) {
            Some(n) if i64::MIN <= n <= i64::MAX => n,
            _ => 30,
        },
        None => 30,
    }
}

/// The configuration that the variables and the listed users give.
pub open spec fn configured(
    vars: Seq<(Seq<char>, Seq<char>)>,
    users: Option<Seq<UserConfigView>>,
) -> AppConfigView {
    let ollama_url = setting_or(vars, "OLLAMA_URL"@, "http://localhost:11434"@);
    AppConfigView {
        freshrss: FreshRSSConfigView {
            url: setting(vars, "FRESHRSS_URL"@)->0,
            api_password: global_api_password(vars),
        },
        qdrant: QdrantConfigView {
            url: setting(vars, "QDRANT_URL"@)->0,
            api_key: setting(vars, "QDRANT_API_KEY"@),
            collection: setting_or(vars, "QDRANT_COLLECTION"@, "articles"@),
            embedding_model: setting_or(vars, "EMBEDDING_MODEL"@, "nomic-embed-text"@),
            embedding_url: setting_or(vars, "EMBEDDING_URL"@, ollama_url),
            embedding_dim: number_or(vars, "EMBEDDING_DIM"@, usize::MAX as int, 768),
            context_window_days: window_days(vars),
            top_k: number_or(vars, "RAG_TOP_K"@, usize::MAX as int, 5),
        },
        ollama: OllamaConfigView {
            url: ollama_url,
            model: setting_or(vars, "LLM_MODEL"@, "llama3.1"@),
            summarizer_prompt: setting_or(vars, "LLM_PROMPT"@, DEFAULT_PROMPT@),
            article_summary_prompt: setting_or(
                vars,
                "ARTICLE_SUMMARY_PROMPT"@,
                DEFAULT_ARTICLE_PROMPT@,
            ),
        },
        libretranslate: LibreTranslateConfigView {
            url: setting(vars, "LIBRETRANSLATE_URL"@)->0,
            api_key: setting(vars, "LIBRETRANSLATE_API_KEY"@),
        },
        smtp: SmtpConfigView {
            host: setting(vars, "SMTP_HOST"@)->0,
            port: number_or(vars, "SMTP_PORT"@, u16::MAX as int, 587),
            username: setting(vars, "SMTP_USERNAME"@)->0,
            password: setting(vars, "SMTP_PASSWORD"@)->0,
            from: setting(vars, "SMTP_FROM"@)->0,
            tls_mode: setting_or(vars, "SMTP_TLS_MODE"@, "starttls"@),
        },
        users: match users {
            Some(listed) => listed,
            None => seq![default_user(setting(vars, "DEFAULT_EMAIL"@)->0)],
        },
        cron: CronConfigView {
            time: setting_or(vars, "CRON_TIME"@, "06:00"@),
            timezone: setting_or(vars, "CRON_TIMEZONE"@, "UTC"@),
        },
    }
}

/// The views of the listed users.
pub open spec fn listed(users: Option<Vec<UserConfig>>) -> Option<Seq<UserConfigView>> {
    match users {
        Some(v) => Some(ordering::views(v@)),
        None => None,
    }
}

pub proof fn lemma_missing_from(vars: Seq<(Seq<char>, Seq<char>)>, names: Seq<Seq<char>>, n: int)
    requires
        0 <= n <= names.len(),
        forall|i: int| 0 <= i < n ==> provided(vars, #[trigger] names[i]),
    ensures
        n < names.len() && !provided(vars, names[n]) ==> first_missing(vars, names) == Some(
            names[n],
        ),
        n == names.len() ==> first_missing(vars, names) is None,
    decreases names.len(),
{
    if n > 0 {
        let rest = names.drop_first();
        assert forall|i: int| 0 <= i < n - 1 implies provided(vars, #[trigger] rest[i]) by {
            assert(rest[i] == names[i + 1]);
        }
        assert(provided(vars, names[0]));
        lemma_missing_from(vars, rest, n - 1);
    }
}

impl AppConfig {
    /// The configuration that the environment gives. `users` are those that the variable
    /// `USERS` lists, where it is set and readable.
    pub fn load_from_env(env: &Env, users: Option<Vec<UserConfig>>) -> (r: Result<
        AppConfig,
        ConfigError,
    >)
        ensures
            match r {
                Ok(config) => refused_for(env@, listed(users)) is None && config@ == configured(
                    env@,
                    listed(users),
                ),
                Err(e) => refused_for(env@, listed(users)) == Some(e.variable@),
            },
    {
        let ghost names = required_variables();
        proof {
            reveal_strlit("FRESHRSS_URL");
            reveal_strlit("FRESHRSS_API_PASSWORD");
            reveal_strlit("QDRANT_URL");
            reveal_strlit("LIBRETRANSLATE_URL");
            reveal_strlit("SMTP_HOST");
            reveal_strlit("SMTP_USERNAME");
            reveal_strlit("SMTP_PASSWORD");
            reveal_strlit("SMTP_FROM");
        }
        let freshrss_url = match env.required("FRESHRSS_URL") {
            Ok(v) => v,
            Err(e) => {
                proof {
                    lemma_missing_from(env@, names, 0);
                }
                return Err(e);
            },
        };
        let api_password = match env.get("FRESHRSS_API_PASSWORD") {
            Some(v) => v,
            None => match env.get("FRESHRSS_PASSWORD") {
                Some(v) => v,
                None => {
                    proof {
                        lemma_missing_from(env@, names, 1);
                    }
                    return Err(ConfigError { variable: "FRESHRSS_API_PASSWORD".to_owned() });
                },
            },
        };
        let qdrant_url = match env.required("QDRANT_URL") {
            Ok(v) => v,
            Err(e) => {
                proof {
                    lemma_missing_from(env@, names, 2);
                }
                return Err(e);
            },
        };
        let translate_url = match env.required("LIBRETRANSLATE_URL") {
            Ok(v) => v,
            Err(e) => {
                proof {
                    lemma_missing_from(env@, names, 3);
                }
                return Err(e);
            },
        };
        let smtp_host = match env.required("SMTP_HOST") {
            Ok(v) => v,
            Err(e) => {
                proof {
                    lemma_missing_from(env@, names, 4);
                }
                return Err(e);
            },
        };
        let smtp_username = match env.required("SMTP_USERNAME") {
            Ok(v) => v,
            Err(e) => {
                proof {
                    lemma_missing_from(env@, names, 5);
                }
                return Err(e);
            },
        };
        let smtp_password = match env.required("SMTP_PASSWORD") {
            Ok(v) => v,
            Err(e) => {
                proof {
                    lemma_missing_from(env@, names, 6);
                }
                return Err(e);
            },
        };
        let smtp_from = match env.required("SMTP_FROM") {
            Ok(v) => v,
            Err(e) => {
                proof {
                    lemma_missing_from(env@, names, 7);
                }
                return Err(e);
            },
        };
        proof {
            lemma_missing_from(env@, names, 8);
        }
        let users = match users {
            Some(listed_users) => listed_users,
            None => {
                let email = match env.required("DEFAULT_EMAIL") {
                    Ok(v) => v,
                    Err(e) => {
                        return Err(e);
                    },
                };
                let user = UserConfig {
                    name: "Default".to_owned(),
                    freshrss_username: "admin".to_owned(),
                    freshrss_api_password: None,
                    email,
                    target_language: None,
                    shared_feeds: None,
                };
                let only: Vec<UserConfig> = vec![user];
                assert(ordering::views(only@) =~= seq![default_user(email@)]);
                only
            },
        };
        let ollama_url = env.get_or("OLLAMA_URL", "http://localhost:11434");
        let context_window_days = match env.get("CONTEXT_WINDOW_DAYS") {
            Some(v) => match text::parse_i64(v.as_str()) {
                Some(n) => n,
                None => 30,
            },
            None => 30,
        };
        let qdrant = QdrantConfig {
            url: qdrant_url,
            api_key: env.get("QDRANT_API_KEY"),
            collection: env.get_or("QDRANT_COLLECTION", "articles"),
            embedding_model: env.get_or("EMBEDDING_MODEL", "nomic-embed-text"),
            embedding_url: env.get_or("EMBEDDING_URL", ollama_url.as_str()),
            embedding_dim: env.number_or("EMBEDDING_DIM", usize::MAX as u64, 768) as usize,
            context_window_days,
            top_k: env.number_or("RAG_TOP_K", usize::MAX as u64, 5) as usize,
        };
        let ollama = OllamaConfig {
            url: ollama_url,
            model: env.get_or("LLM_MODEL", "llama3.1"),
            summarizer_prompt: match env.get("LLM_PROMPT") {
                Some(v) => v,
                None => Self::default_prompt(),
            },
            article_summary_prompt: match env.get("ARTICLE_SUMMARY_PROMPT") {
                Some(v) => v,
                None => Self::default_article_prompt(),
            },
        };
        let smtp = SmtpConfig {
            host: smtp_host,
            port: env.number_or("SMTP_PORT", 65535, 587) as u16,
            username: smtp_username,
            password: smtp_password,
            from: smtp_from,
            tls_mode: env.get_or("SMTP_TLS_MODE", "starttls"),
        };
        Ok(
            AppConfig {
                freshrss: FreshRSSConfig { url: freshrss_url, api_password },
                qdrant,
                ollama,
                libretranslate: LibreTranslateConfig {
                    url: translate_url,
                    api_key: env.get("LIBRETRANSLATE_API_KEY"),
                },
                smtp,
                users,
                cron: CronConfig {
                    time: env.get_or("CRON_TIME", "06:00"),
                    timezone: env.get_or("CRON_TIMEZONE", "UTC"),
                },
            },
        )
    }

    /// Whether the API password comes from the deprecated variable `FRESHRSS_PASSWORD`.
    pub fn uses_deprecated_password(env: &Env) -> (r: bool)
        ensures
            r == (setting(env@, "FRESHRSS_API_PASSWORD"@) is None && setting(
                env@,
                "FRESHRSS_PASSWORD"@,
            ) is Some),
    {
        env.get("FRESHRSS_API_PASSWORD").is_none() && env.get("FRESHRSS_PASSWORD").is_some()
    }

    /// The prompt for the overall digest, where none is configured.
    pub fn default_prompt() -> (r: String)
        ensures
            r@ == DEFAULT_PROMPT@,
    {
        DEFAULT_PROMPT.to_owned()
    }

    /// The prompt for one article's summary, where none is configured.
    pub fn default_article_prompt() -> (r: String)
        ensures
            r@ == DEFAULT_ARTICLE_PROMPT@,
    {
        DEFAULT_ARTICLE_PROMPT.to_owned()
    }
}

fn copy_texts(v: &Vec<String>) -> (r: Vec<String>)
    ensures
        text::texts(r@) == text::texts(v@),
{
    let ghost all = text::texts(v@);
    let mut r: Vec<String> = Vec::new();
    for i in 0..v.len()
        invariant
            all == text::texts(v@),
            text::texts(r@) == all.take(i as int),
    {
        let ghost before = text::texts(r@);
        r.push(v[i].clone());
        assert(text::texts(r@) =~= before.push(all[i as int]));
        assert(all.take(i + 1) =~= all.take(i as int).push(all[i as int]));
    }
    assert(all.take(all.len() as int) =~= all);
    r
}

impl UserConfig {
    /// The same user.
    pub fn copy(&self) -> (r: UserConfig)
        ensures
            r@ == self@,
    {
        UserConfig {
            name: self.name.clone(),
            freshrss_username: self.freshrss_username.clone(),
            freshrss_api_password: text::copy_text(&self.freshrss_api_password),
            email: self.email.clone(),
            target_language: text::copy_text(&self.target_language),
            shared_feeds: match &self.shared_feeds {
                Some(feeds) => Some(copy_texts(feeds)),
                None => None,
            },
        }
    }
}

/// The variables that the configuration is read from, beside the list of users.
pub open spec fn read_variables() -> Seq<Seq<char>> {
    required_variables() + seq![
        "FRESHRSS_PASSWORD"@,
        "QDRANT_API_KEY"@,
        "QDRANT_COLLECTION"@,
        "EMBEDDING_MODEL"@,
        "EMBEDDING_URL"@,
        "EMBEDDING_DIM"@,
        "CONTEXT_WINDOW_DAYS"@,
        "RAG_TOP_K"@,
        "OLLAMA_URL"@,
        "LLM_MODEL"@,
        "LLM_PROMPT"@,
        "ARTICLE_SUMMARY_PROMPT"@,
        "LIBRETRANSLATE_API_KEY"@,
        "SMTP_PORT"@,
        "SMTP_TLS_MODE"@,
        "DEFAULT_EMAIL"@,
        "CRON_TIME"@,
        "CRON_TIMEZONE"@,
    ]
}

proof fn lemma_setting_of_another(
    vars: Seq<(Seq<char>, Seq<char>)>,
    variable: (Seq<char>, Seq<char>),
    name: Seq<char>,
)
    requires
        variable.0 != name,
    ensures
        setting(vars.push(variable), name) == setting(vars, name),
    decreases vars.len(),
{
    reveal_with_fuel(setting, 2);
    let more = vars.push(variable);
    if vars.len() > 0 {
        lemma_setting_of_another(vars.drop_first(), variable, name);
        assert(more.drop_first() =~= vars.drop_first().push(variable));
    } else {
        assert(more.drop_first() =~= Seq::<(Seq<char>, Seq<char>)>::empty());
    }
}

proof fn lemma_first_missing_of_another(
    vars: Seq<(Seq<char>, Seq<char>)>,
    variable: (Seq<char>, Seq<char>),
    names: Seq<Seq<char>>,
)
    requires
        forall|i: int| 0 <= i < names.len() ==> #[trigger] names[i] != variable.0,
        variable.0 != "FRESHRSS_PASSWORD"@,
    ensures
        first_missing(vars.push(variable), names) == first_missing(vars, names),
    decreases names.len(),
{
    if names.len() > 0 {
        let rest = names.drop_first();
        assert forall|i: int| 0 <= i < rest.len() implies #[trigger] rest[i] != variable.0 by {
            assert(rest[i] == names[i + 1]);
        }
        lemma_first_missing_of_another(vars, variable, rest);
        lemma_setting_of_another(vars, variable, names[0]);
        lemma_setting_of_another(vars, variable, "FRESHRSS_PASSWORD"@);
    }
}

/// A variable of another name has no part in the configuration: setting it changes nothing.
pub proof fn law_other_variables_are_ignored(
    vars: Seq<(Seq<char>, Seq<char>)>,
    variable: (Seq<char>, Seq<char>),
    users: Option<Seq<UserConfigView>>,
)
    requires
        !read_variables().contains(variable.0),
    ensures
        refused_for(vars.push(variable), users) == refused_for(vars, users),
        configured(vars.push(variable), users) == configured(vars, users),
{
    let names = read_variables();
    let required = required_variables();
    assert forall|i: int| 0 <= i < required.len() implies #[trigger] required[i] != variable.0 by {
        assert(names[i] == required[i]);
    }
    assert forall|name: Seq<char>| #[trigger] names.contains(name) implies setting(
        vars.push(variable),
        name,
    ) == setting(vars, name) by {
        lemma_setting_of_another(vars, variable, name);
    }
    assert forall|i: int| 0 <= i < names.len() implies setting(
        vars.push(variable),
        #[trigger] names[i],
    ) == setting(vars, names[i]) by {
        assert(names.contains(names[i]));
    }
    let n = required.len() as int;
    assert(n == 8 && names.len() == 26);
    assert(names[0] == "FRESHRSS_URL"@ && names[1] == "FRESHRSS_API_PASSWORD"@);
    assert(names[2] == "QDRANT_URL"@ && names[3] == "LIBRETRANSLATE_URL"@);
    assert(names[4] == "SMTP_HOST"@ && names[5] == "SMTP_USERNAME"@);
    assert(names[6] == "SMTP_PASSWORD"@ && names[7] == "SMTP_FROM"@);
    assert(names[8] == "FRESHRSS_PASSWORD"@ && names[9] == "QDRANT_API_KEY"@);
    assert(names[10] == "QDRANT_COLLECTION"@ && names[11] == "EMBEDDING_MODEL"@);
    assert(names[12] == "EMBEDDING_URL"@ && names[13] == "EMBEDDING_DIM"@);
    assert(names[14] == "CONTEXT_WINDOW_DAYS"@ && names[15] == "RAG_TOP_K"@);
    assert(names[16] == "OLLAMA_URL"@ && names[17] == "LLM_MODEL"@);
    assert(names[18] == "LLM_PROMPT"@ && names[19] == "ARTICLE_SUMMARY_PROMPT"@);
    assert(names[20] == "LIBRETRANSLATE_API_KEY"@ && names[21] == "SMTP_PORT"@);
    assert(names[22] == "SMTP_TLS_MODE"@ && names[23] == "DEFAULT_EMAIL"@);
    assert(names[24] == "CRON_TIME"@ && names[25] == "CRON_TIMEZONE"@);
    assert(names.contains(names[8]));
    lemma_first_missing_of_another(vars, variable, required);
}

} // verus!
