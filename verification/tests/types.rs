use openai_rust::chat::stream::{ChatCompletionChunk, ChoiceDelta};
use openai_rust::chat::{ChatCompletion, Message, Role, Usage};
use openai_rust::edits::EditResponse;
use openai_rust::embeddings::EmbeddingsArguments;
use openai_rust::images::{ImageArguments, ImageObject, ImageResponse, ResponseFormat};
use openai_rust::models::Model;

fn chunk(content: Option<&str>) -> ChatCompletionChunk {
    ChatCompletionChunk {
        id: "chatcmpl-6yX67cSCIAm4nrNLQUPOtJu9JUoLG".to_owned(),
        created: 1679884927,
        model: "gpt-3.5-turbo-0301".to_owned(),
        choices: vec![openai_rust::chat::stream::Choice {
            delta: ChoiceDelta { content: content.map(|text| text.to_owned()) },
            index: 0,
            finish_reason: None,
        }],
        system_fingerprint: None,
    }
}

#[test]
fn chunk_text_is_the_content_of_the_first_choice() {
    assert_eq!(chunk(Some(" today")).to_string(), " today");
    assert_eq!(chunk(Some("")).to_string(), "");
    assert_eq!(chunk(None).to_string(), "");
    let mut two = chunk(Some("a"));
    two.choices.push(openai_rust::chat::stream::Choice {
        delta: ChoiceDelta { content: Some("b".to_owned()) },
        index: 1,
        finish_reason: Some("stop".to_owned()),
    });
    assert_eq!(two.to_string(), "a");
}

#[test]
fn completion_text_is_the_content_of_the_first_choice() {
    let completion = ChatCompletion {
        id: "chatcmpl-123".to_owned(),
        created: 1677652288,
        choices: vec![openai_rust::chat::Choice {
            index: 0,
            message: Message {
                role: "assistant".to_owned(),
                content: "\n\nHello there, how may I assist you today?".to_owned(),
            },
            finish_reason: "stop".to_owned(),
        }],
        usage: Usage { prompt_tokens: 9, completion_tokens: 12, total_tokens: 21 },
    };
    assert_eq!(completion.to_string(), "\n\nHello there, how may I assist you today?");
    assert_eq!(completion.usage.total_tokens, 21);
}

#[test]
fn edit_text_is_the_text_of_the_first_choice() {
    let response = EditResponse {
        created: 1589478378,
        choices: vec![
            openai_rust::edits::Choice { text: "What day of the week is it?".to_owned(), index: 0 },
            openai_rust::edits::Choice { text: "other".to_owned(), index: 1 },
        ],
        usage: openai_rust::edits::Usage { prompt_tokens: 25, completion_tokens: 32, total_tokens: 57 },
    };
    assert_eq!(response.to_string(), "What day of the week is it?");
}

#[test]
fn embeddings_arguments_start_without_user() {
    let args = EmbeddingsArguments::new(
        "text-embedding-ada-002",
        "The food was delicious and the waiter...".to_owned(),
    );
    assert_eq!(args.model, "text-embedding-ada-002");
    assert_eq!(args.input, "The food was delicious and the waiter...");
    assert_eq!(args.user, None);
}

#[test]
fn image_arguments_start_with_every_option_open() {
    let args = ImageArguments::new("a white siamese cat");
    assert_eq!(args.prompt, "a white siamese cat");
    assert_eq!(args.n, None);
    assert!(args.response_format.is_none());
    assert_eq!(args.size, None);
    assert_eq!(args.user, None);
    let mut chosen = args.clone();
    chosen.response_format = Some(ResponseFormat::Url);
    assert!(matches!(chosen.response_format, Some(ResponseFormat::Url)));
}

#[test]
fn images_come_out_as_their_text_in_order() {
    let response = ImageResponse {
        created: 1589478378,
        data: vec![
            ImageObject::Url("https://example.com/1.png".to_owned()),
            ImageObject::Base64JSON("aGVsbG8=".to_owned()),
            ImageObject::Url("https://example.com/3.png".to_owned()),
        ],
    };
    assert_eq!(
        response.images(),
        vec!["https://example.com/1.png", "aGVsbG8=", "https://example.com/3.png"]
    );
    let empty = ImageResponse { created: 0, data: vec![] };
    assert_eq!(empty.images(), Vec::<String>::new());
}

#[test]
fn plain_records_hold_what_they_are_given() {
    let model = Model { id: "gpt-3.5-turbo".to_owned(), owned_by: "openai".to_owned(), created: 1677610602 };
    assert_eq!(model.id, "gpt-3.5-turbo");
    assert_eq!(model.owned_by, "openai");
    assert_eq!(model.created, 1677610602);
    let message = Message { role: "user".to_owned(), content: "Hello GPT!".to_owned() };
    assert_eq!(message.role, "user");
    assert_eq!(message.content, "Hello GPT!");
    assert!(matches!(Role::User, Role::User));
    let usage = openai_rust::embeddings::Usage { prompt_tokens: 8, total_tokens: 9 };
    assert_eq!(usage.prompt_tokens, 8);
    assert_eq!(usage.total_tokens, 9);
}

#[test]
fn only_status_200_is_fulfilled() {
    assert_eq!(openai_rust::STATUS_OK, 200);
    assert!(openai_rust::fulfilled(200));
    for status in [0, 100, 199, 201, 204, 301, 400, 401, 404, 429, 500, u16::MAX] {
        assert!(!openai_rust::fulfilled(status), "status {}", status);
    }
}
