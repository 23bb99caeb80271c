//! The records that the application stores and exchanges, each with the
//! mathematical value that contracts speak of.

use vstd::prelude::*;

verus! {

/// The views of the items of a sequence, in order.
pub open spec fn views<T: View>(s: Seq<T>) -> Seq<T::V> {
    s.map_values(|x: T| x@)
}

/// A titled thread of messages.
#[derive(Debug, PartialEq, Eq)]
pub struct Conversation {
    pub id: i64,
    pub title: String,
    pub created_at: String,
    pub updated_at: String,
}

/// What a [`Conversation`] holds.
pub struct ConversationView {
    pub id: int,
    pub title: Seq<char>,
    pub created_at: Seq<char>,
    pub updated_at: Seq<char>,
}

impl View for Conversation {
    type V = ConversationView;

    open spec fn view(&self) -> ConversationView {
        ConversationView {
            id: self.id as int,
            title: self.title@,
            created_at: self.created_at@,
            updated_at: self.updated_at@,
        }
    }
}

impl Clone for Conversation {
    fn clone(&self) -> (r: Self)
        ensures
            r@ == self@,
    {
        Conversation {
            id: self.id,
            title: self.title.clone(),
            created_at: self.created_at.clone(),
            updated_at: self.updated_at.clone(),
        }
    }
}

/// One message of a conversation.
#[derive(Debug, PartialEq, Eq)]
pub struct Message {
    pub id: i64,
    pub conversation_id: i64,
    pub role: String,
    pub content: String,
    pub created_at: String,
}

/// What a [`Message`] holds.
pub struct MessageView {
    pub id: int,
    pub conversation_id: int,
    pub role: Seq<char>,
    pub content: Seq<char>,
    pub created_at: Seq<char>,
}

impl View for Message {
    type V = MessageView;

    open spec fn view(&self) -> MessageView {
        MessageView {
            id: self.id as int,
            conversation_id: self.conversation_id as int,
            role: self.role@,
            content: self.content@,
            created_at: self.created_at@,
        }
    }
}

impl Clone for Message {
    fn clone(&self) -> (r: Self)
        ensures
            r@ == self@,
    {
        Message {
            id: self.id,
            conversation_id: self.conversation_id,
            role: self.role.clone(),
            content: self.content.clone(),
            created_at: self.created_at.clone(),
        }
    }
}

/// Where the model endpoint is, the key it asks for, and the model to use.
#[derive(Debug, PartialEq, Eq)]
pub struct AppSettings {
    pub api_url: String,
    pub api_key: String,
    pub model: String,
}

/// What an [`AppSettings`] holds.
pub struct AppSettingsView {
    pub api_url: Seq<char>,
    pub api_key: Seq<char>,
    pub model: Seq<char>,
}

impl View for AppSettings {
    type V = AppSettingsView;

    open spec fn view(&self) -> AppSettingsView {
        AppSettingsView { api_url: self.api_url@, api_key: self.api_key@, model: self.model@ }
    }
}

impl Clone for AppSettings {
    fn clone(&self) -> (r: Self)
        ensures
            r@ == self@,
    {
        AppSettings {
            api_url: self.api_url.clone(),
            api_key: self.api_key.clone(),
            model: self.model.clone(),
        }
    }
}

/// The settings of a store that was never configured.
pub open spec fn default_settings() -> AppSettingsView {
    AppSettingsView {
        api_url: "http://localhost:11434/v1"@,
        api_key: Seq::empty(),
        model: "llama3.2"@,
    }
}

impl Default for AppSettings {
    fn default() -> (r: Self)
        ensures
            r@ == default_settings(),
    {
        AppSettings {
            api_url: "http://localhost:11434/v1".to_owned(),
            api_key: String::new(),
            model: "llama3.2".to_owned(),
        }
    }
}

/// One message as the model endpoint takes it.
#[derive(Debug, PartialEq, Eq)]
pub struct ChatMessage {
    pub role: String,
    pub content: String,
}

/// What a [`ChatMessage`] holds.
pub struct ChatMessageView {
    pub role: Seq<char>,
    pub content: Seq<char>,
}

impl View for ChatMessage {
    type V = ChatMessageView;

    open spec fn view(&self) -> ChatMessageView {
        ChatMessageView { role: self.role@, content: self.content@ }
    }
}

impl Clone for ChatMessage {
    fn clone(&self) -> (r: Self)
        ensures
            r@ == self@,
    {
        ChatMessage { role: self.role.clone(), content: self.content.clone() }
    }
}

/// The body of a chat-completion request.
#[derive(Debug, PartialEq, Eq)]
pub struct ChatRequest {
    pub model: String,
    pub messages: Vec<ChatMessage>,
    pub stream: bool,
}

/// What a [`ChatRequest`] holds.
pub struct ChatRequestView {
    pub model: Seq<char>,
    pub messages: Seq<ChatMessageView>,
    pub stream: bool,
}

impl View for ChatRequest {
    type V = ChatRequestView;

    open spec fn view(&self) -> ChatRequestView {
        ChatRequestView {
            model: self.model@,
            messages: views(self.messages@),
            stream: self.stream,
        }
    }
}

/// The text of one reply of the model.
#[derive(Debug, PartialEq, Eq)]
pub struct ChatMessageResponse {
    pub content: String,
}

/// One of the replies that the model offers.
#[derive(Debug, PartialEq, Eq)]
pub struct ChatChoice {
    pub message: ChatMessageResponse,
}

/// The body of a chat-completion response.
#[derive(Debug, PartialEq, Eq)]
pub struct ChatResponse {
    pub choices: Vec<ChatChoice>,
}

impl View for ChatResponse {
    type V = Seq<Seq<char>>;

    /// The texts of the choices, in order.
    open spec fn view(&self) -> Seq<Seq<char>> {
        self.choices@.map_values(|c: ChatChoice| c.message.content@)
    }
}

/// A model description file found on disk.
#[derive(Debug, PartialEq, Eq)]
pub struct ModelFile {
    pub name: String,
    pub path: String,
    pub content: String,
}

/// What a [`ModelFile`] holds.
pub struct ModelFileView {
    pub name: Seq<char>,
    pub path: Seq<char>,
    pub content: Seq<char>,
}

impl View for ModelFile {
    type V = ModelFileView;

    open spec fn view(&self) -> ModelFileView {
        ModelFileView { name: self.name@, path: self.path@, content: self.content@ }
    }
}

impl Clone for ModelFile {
    fn clone(&self) -> (r: Self)
        ensures
            r@ == self@,
    {
        ModelFile {
            name: self.name.clone(),
            path: self.path.clone(),
            content: self.content.clone(),
        }
    }
}

/// A model description file, the model it builds on, and whether the
/// endpoint has that model.
#[derive(Debug, PartialEq, Eq)]
pub struct ModelFileInfo {
    pub name: String,
    pub path: String,
    pub content: String,
    pub base_model: Option<String>,
    pub is_base_available: bool,
}

/// What a [`ModelFileInfo`] holds.
pub struct ModelFileInfoView {
    pub name: Seq<char>,
    pub path: Seq<char>,
    pub content: Seq<char>,
    pub base_model: Option<Seq<char>>,
    pub is_base_available: bool,
}

impl View for ModelFileInfo {
    type V = ModelFileInfoView;

    open spec fn view(&self) -> ModelFileInfoView {
        ModelFileInfoView {
            name: self.name@,
            path: self.path@,
            content: self.content@,
            base_model: match self.base_model {
                Some(b) => Some(b@),
                None => None,
            },
            is_base_available: self.is_base_available,
        }
    }
}

/// One model that the endpoint lists.
#[derive(Debug, PartialEq, Eq)]
pub struct OllamaModel {
    pub name: String,
}

/// The body of a tag-listing response.
#[derive(Debug, PartialEq, Eq)]
pub struct OllamaListResponse {
    pub models: Vec<OllamaModel>,
}

impl View for OllamaListResponse {
    type V = Seq<Seq<char>>;

    /// The names of the models, in order.
    open spec fn view(&self) -> Seq<Seq<char>> {
        self.models@.map_values(|m: OllamaModel| m.name@)
    }
}

} // verus!
