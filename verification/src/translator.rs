//! The translation service as the pipeline sees it: how a request is
//! shaped, and what a reply is worth.
//!
//! Nothing here sends anything. A request is a plain value that the caller
//! serialises and posts; what came back is handed in as a [`Reply`].

use vstd::prelude::*;
use vstd::string::StringExecFns;

verus! {

/// Where requests are posted.
pub const ENDPOINT: &'static str = "https://api.openai.com/v1/chat/completions";

/// The chat-completion model that translates.
pub const MODEL: &'static str = "gpt-3.5-turbo";

/// The instruction up to the name of the target language.
pub const INSTRUCTION_HEAD: &'static str =
    "Given the text below for a maths competition translate it in ";

/// The instruction after the name of the target language.
pub const INSTRUCTION_TAIL: &'static str =
    ". Try to retain formulas when you can, usage of LateX is ok. Skip translating Rounds numbers, they are most likely at the bottom.";

/// The variable of the environment that holds the credential.
pub const CREDENTIAL_VARIABLE: &'static str = "OPENAI_KEY";

/// What the authorization header says before the credential.
pub const BEARER: &'static str = "Bearer ";

/// What is said where the credential is missing.
pub const CREDENTIAL_MISSING: &'static str = "OPENAI_KEY not set";

/// The most tokens the service may answer with.
pub const MAX_TOKENS: i32 = 2040;

/// One entry of a chat exchange.
#[derive(Debug, Clone, PartialEq, Eq)]
pub struct Message {
    pub role: String,
    pub content: String,
}

/// The body of one translation request.
///
/// The two sampling parameters are held in tenths, so that `10` stands for
/// the value one.
#[derive(Debug, Clone, PartialEq, Eq)]
pub struct OpenAIRequest {
    pub model: String,
    pub messages: Vec<Message>,
    pub temperature_tenths: u32,
    pub max_tokens: i32,
    pub top_p_tenths: u32,
    pub frequency_penalty: i32,
    pub presence_penalty: i32,
}

/// One alternative that the service offers.
#[derive(Debug, Clone, PartialEq, Eq)]
pub struct Choice {
    pub message: Message,
}

/// The body of an answer.
#[derive(Debug, Clone, PartialEq, Eq)]
pub struct OpenAIResponse {
    pub choices: Vec<Choice>,
}

/// Why a page has no translation.
#[derive(Debug, Clone, Copy, PartialEq, Eq, Structural)]
pub enum TranslationFailure {
    /// The service could not be reached, or the connection broke.
    Network,
    /// The service answered with a status outside 200..=299.
    Status(u16),
    /// The answer's body was not a response.
    Malformed,
}

/// What became of one request.
#[derive(Debug, Clone, PartialEq, Eq)]
pub enum Reply {
    /// No answer arrived.
    Unreachable,
    /// An answer arrived; `body` is `None` where it could not be read as a
    /// response.
    Answered { status: u16, body: Option<OpenAIResponse> },
}

/// Why the pipeline cannot start.
#[derive(Debug, Clone, Copy, PartialEq, Eq, Structural)]
pub enum StartupError {
    /// The environment holds no credential.
    MissingCredential,
}

/// The secret that authorizes requests. One exists only where the
/// environment held a value, so nothing can be sent without it.
#[derive(Debug, Clone, PartialEq, Eq)]
pub struct Credential {
    secret: String,
}

impl View for Credential {
    type V = Seq<char>;

    closed spec fn view(&self) -> Seq<char> {
        self.secret@
    }
}

/// The headers of a request made with `secret`, each a name and a value.
pub open spec fn headers_for(secret: Seq<char>) -> Seq<(Seq<char>, Seq<char>)> {
    seq![("Content-Type"@, "application/json"@), ("Authorization"@, BEARER@ + secret)]
}

/// The instruction that opens every exchange, for a target language.
pub open spec fn instruction(language: Seq<char>) -> Seq<char> {
    INSTRUCTION_HEAD@ + language + INSTRUCTION_TAIL@
}

/// Whether `request` is the request for `text` into `language`.
pub open spec fn is_request_for(
    request: OpenAIRequest,
    text: Seq<char>,
    language: Seq<char>,
) -> bool {
    &&& request.model@ == MODEL@
    &&& request.messages@.len() == 2
    &&& request.messages@[0].role@ == "system"@
    &&& request.messages@[0].content@ == instruction(language)
    &&& request.messages@[1].role@ == "user"@
    &&& request.messages@[1].content@ == text
    &&& request.temperature_tenths == 10
    &&& request.max_tokens == MAX_TOKENS
    &&& request.top_p_tenths == 10
    &&& request.frequency_penalty == 0
    &&& request.presence_penalty == 0
}

/// The text that a response stands for: the content of its first choice,
/// and nothing where it has no choice.
pub open spec fn first_choice(response: OpenAIResponse) -> Seq<char> {
    if response.choices@.len() == 0 {
        Seq::empty()
    } else {
        response.choices@[0].message.content@
    }
}

/// Whether a status reports success.
pub open spec fn is_success(status: u16) -> bool {
    200 <= status <= 299
}

impl StartupError {
    /// The error in words.
    pub fn message(&self) -> (message: String)
        ensures
            message@ == CREDENTIAL_MISSING@,
    {
        String::from_str(CREDENTIAL_MISSING)
    }
}

impl Credential {
    /// Takes the credential from what the environment held under
    /// [`CREDENTIAL_VARIABLE`]. Any value is taken as it is; only its
    /// absence is an error.
    pub fn from_variable(value: Option<String>) -> (credential: Result<Credential, StartupError>)
        ensures
            value is Some ==> credential is Ok && credential->Ok_0@ == value->Some_0@,
            value is None ==> credential == Err::<Credential, _>(StartupError::MissingCredential),
    {
        match value {
            Some(secret) => Ok(Credential { secret }),
            None => Err(StartupError::MissingCredential),
        }
    }

    /// The secret itself.
    pub fn secret(&self) -> (secret: &str)
        ensures
            secret@ == self@,
    {
        self.secret.as_str()
    }

    /// The value of the authorization header.
    pub fn authorization(&self) -> (value: String)
        ensures
            value@ == BEARER@ + self@,
    {
        let mut value: String = String::from_str(BEARER);
        value.append(self.secret.as_str());
        value
    }
}

/// The headers that go with every request: the body is JSON, and the
/// credential is the bearer.
pub fn request_headers(credential: &Credential) -> (headers: Vec<(String, String)>)
    ensures
        headers.deep_view() == headers_for(credential@),
{
    let mut headers: Vec<(String, String)> = Vec::new();
    headers.push((String::from_str("Content-Type"), String::from_str("application/json")));
    headers.push((String::from_str("Authorization"), credential.authorization()));
    proof {
        assert(headers.deep_view() =~= headers_for(credential@));
    }
    headers
}

/// Builds the system instruction for `language`.
pub fn system_instruction(language: &str) -> (text: String)
    ensures
        text@ == instruction(language@),
{
    let mut text: String = String::from_str(INSTRUCTION_HEAD);
    text.append(language);
    text.append(INSTRUCTION_TAIL);
    text
}

/// Shapes the request that asks for `text` in `language`: the instruction
/// as the system message, the page as the user message, untouched, and the
/// fixed generation parameters.
pub fn build_request(text: String, language: &str) -> (request: OpenAIRequest)
    ensures
        is_request_for(request, text@, language@),
        request.messages@[1].content == text,
{
    let system_message = Message {
        role: String::from_str("system"),
        content: system_instruction(language),
    };
    let user_message = Message { role: String::from_str("user"), content: text };
    let mut messages: Vec<Message> = Vec::new();
    messages.push(system_message);
    messages.push(user_message);
    OpenAIRequest {
        model: String::from_str(MODEL),
        messages,
        temperature_tenths: 10,
        max_tokens: MAX_TOKENS,
        top_p_tenths: 10,
        frequency_penalty: 0,
        presence_penalty: 0,
    }
}

/// Reads the translation out of a response.
pub fn translated_text(response: &OpenAIResponse) -> (text: String)
    ensures
        text@ == first_choice(*response),
{
    if response.choices.len() == 0 {
        String::new()
    } else {
        response.choices[0].message.content.clone()
    }
}

/// Decides what a reply is worth: the translation where the service
/// answered with success and a readable body, a failure otherwise.
pub fn outcome_of(reply: &Reply) -> (outcome: Result<String, TranslationFailure>)
    ensures
        match *reply {
            Reply::Unreachable => outcome == Err::<String, _>(TranslationFailure::Network),
            Reply::Answered { status, body } => if !is_success(status) {
                outcome == Err::<String, _>(TranslationFailure::Status(status))
            } else {
                match body {
                    None => outcome == Err::<String, _>(TranslationFailure::Malformed),
                    Some(response) => outcome is Ok && outcome->Ok_0@ == first_choice(response),
                }
            },
        },
{
    match reply {
        Reply::Unreachable => Err(TranslationFailure::Network),
        Reply::Answered { status, body } => {
            if *status < 200 || *status > 299 {
                Err(TranslationFailure::Status(*status))
            } else {
                match body {
                    None => Err(TranslationFailure::Malformed),
                    Some(response) => Ok(translated_text(response)),
                }
            }
        },
    }
}

} // verus!
