use pdf_translator::translator::{
    build_request, outcome_of, request_headers, system_instruction, translated_text, Choice,
    Credential, Message, OpenAIResponse, Reply, StartupError, TranslationFailure,
    CREDENTIAL_VARIABLE, ENDPOINT, MAX_TOKENS, MODEL,
};

fn response_with(contents: &[&str]) -> OpenAIResponse {
    let mut choices = Vec::new();
    for content in contents {
        choices.push(Choice {
            message: Message { role: "assistant".to_string(), content: content.to_string() },
        });
    }
    OpenAIResponse { choices }
}

#[test]
fn endpoint_and_model_are_fixed() {
    assert_eq!(ENDPOINT, "https://api.openai.com/v1/chat/completions");
    assert_eq!(MODEL, "gpt-3.5-turbo");
    assert_eq!(MAX_TOKENS, 2040);
    assert_eq!(CREDENTIAL_VARIABLE, "OPENAI_KEY");
}

#[test]
fn system_instruction_names_the_language() {
    assert_eq!(
        system_instruction("French"),
        "Given the text below for a maths competition translate it in French. Try to retain formulas when you can, usage of LateX is ok. Skip translating Rounds numbers, they are most likely at the bottom."
    );
}

#[test]
fn system_instruction_takes_any_language_as_it_is() {
    assert_eq!(
        system_instruction(""),
        "Given the text below for a maths competition translate it in . Try to retain formulas when you can, usage of LateX is ok. Skip translating Rounds numbers, they are most likely at the bottom."
    );
    assert!(system_instruction("Português (Brasil)")
        .starts_with("Given the text below for a maths competition translate it in Português (Brasil). Try"));
}

#[test]
fn request_has_two_messages_and_fixed_parameters() {
    let request = build_request("Round 1\n  x^2 = 4\n".to_string(), "German");
    assert_eq!(request.model, "gpt-3.5-turbo");
    assert_eq!(request.messages.len(), 2);
    assert_eq!(request.messages[0].role, "system");
    assert_eq!(request.messages[0].content, system_instruction("German"));
    assert_eq!(request.messages[1].role, "user");
    assert_eq!(request.messages[1].content, "Round 1\n  x^2 = 4\n");
    assert_eq!(request.temperature_tenths, 10);
    assert_eq!(request.max_tokens, 2040);
    assert_eq!(request.top_p_tenths, 10);
    assert_eq!(request.frequency_penalty, 0);
    assert_eq!(request.presence_penalty, 0);
}

#[test]
fn missing_credential_is_a_startup_error() {
    assert_eq!(Credential::from_variable(None), Err(StartupError::MissingCredential));
    assert_eq!(StartupError::MissingCredential.message(), "OPENAI_KEY not set");
}

#[test]
fn missing_credential_stops_before_any_request() {
    let mut calls = 0;
    let outcome = match Credential::from_variable(None) {
        Ok(credential) => {
            calls += 1;
            let _ = request_headers(&credential);
            let _ = build_request("Page 1 body".to_string(), "French");
            Ok(())
        },
        Err(error) => Err(error),
    };
    assert_eq!(outcome, Err(StartupError::MissingCredential));
    assert_eq!(calls, 0);
}

#[test]
fn credential_is_taken_as_it_is() {
    let credential = Credential::from_variable(Some("k-123".to_string())).unwrap();
    assert_eq!(credential.secret(), "k-123");
    assert_eq!(credential.authorization(), "Bearer k-123");
    let empty = Credential::from_variable(Some(String::new())).unwrap();
    assert_eq!(empty.secret(), "");
    assert_eq!(empty.authorization(), "Bearer ");
}

#[test]
fn headers_carry_content_type_and_bearer() {
    let credential = Credential::from_variable(Some("k-123".to_string())).unwrap();
    assert_eq!(
        request_headers(&credential),
        vec![
            ("Content-Type".to_string(), "application/json".to_string()),
            ("Authorization".to_string(), "Bearer k-123".to_string()),
        ]
    );
}

#[test]
fn response_without_choices_is_empty_text() {
    assert_eq!(translated_text(&response_with(&[])), "");
}

#[test]
fn response_with_one_choice_is_its_content_verbatim() {
    let content = "  Ligne 1\n\n\\frac{a}{b}  \t";
    assert_eq!(translated_text(&response_with(&[content])), content);
}

#[test]
fn response_with_several_choices_is_the_first() {
    assert_eq!(translated_text(&response_with(&["first", "second", "third"])), "first");
}

#[test]
fn reply_without_answer_is_a_network_failure() {
    assert_eq!(outcome_of(&Reply::Unreachable), Err(TranslationFailure::Network));
}

#[test]
fn reply_outside_success_is_a_status_failure() {
    for status in [100u16, 199, 300, 301, 400, 401, 404, 429, 500, 503, 0, u16::MAX] {
        let with_body = Reply::Answered { status, body: Some(response_with(&["ignored"])) };
        assert_eq!(outcome_of(&with_body), Err(TranslationFailure::Status(status)));
        let without_body = Reply::Answered { status, body: None };
        assert_eq!(outcome_of(&without_body), Err(TranslationFailure::Status(status)));
    }
}

#[test]
fn reply_with_unreadable_body_is_malformed() {
    for status in [200u16, 201, 204, 299] {
        let reply = Reply::Answered { status, body: None };
        assert_eq!(outcome_of(&reply), Err(TranslationFailure::Malformed));
    }
}

#[test]
fn reply_with_success_is_the_translation() {
    for status in [200u16, 201, 299] {
        let reply = Reply::Answered { status, body: Some(response_with(&["Bonjour"])) };
        assert_eq!(outcome_of(&reply), Ok("Bonjour".to_string()));
    }
}

#[test]
fn reply_with_success_and_no_choice_is_empty_not_a_failure() {
    let reply = Reply::Answered { status: 200, body: Some(response_with(&[])) };
    assert_eq!(outcome_of(&reply), Ok(String::new()));
}
