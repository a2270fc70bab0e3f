//! Project registry and command logic of a bot that links chat channels to
//! code repositories: the registry with its lookups, the slash commands that
//! change it, and the decisions taken when a pull request is opened or
//! reviewed.

use vstd::prelude::*;

pub mod config;
pub mod github;
pub mod search;
pub mod slack;
pub mod text;

verus! {

/// A button that opens a link.
#[derive(Debug)]
pub struct Button {
    pub text: String,
    pub action_id: String,
    pub url: String,
}

/// What a `Button` holds, as character sequences.
pub struct ButtonView {
    pub text: Seq<char>,
    pub action_id: Seq<char>,
    pub url: Seq<char>,
}

impl View for Button {
    type V = ButtonView;

    open spec fn view(&self) -> ButtonView {
        ButtonView { text: self.text@, action_id: self.action_id@, url: self.url@ }
    }
}

/// One section of a message laid out in blocks: a text in the chat
/// platform's markup, and beside it a button or nothing.
#[derive(Debug)]
pub struct Section {
    pub text: String,
    pub accessory: Option<Button>,
}

/// What a `Section` holds, as character sequences.
pub struct SectionView {
    pub text: Seq<char>,
    pub accessory: Option<ButtonView>,
}

impl View for Section {
    type V = SectionView;

    open spec fn view(&self) -> SectionView {
        SectionView {
            text: self.text@,
            accessory: match self.accessory {
                Some(b) => Some(b@),
                None => None,
            },
        }
    }
}

/// The answer to a command: a plain text or a list of sections.
/// `response_type` says who in the channel gets to see it.
#[derive(Debug)]
pub enum Response {
    TextResponse { text: String, response_type: String },
    BlockResponse { blocks: Vec<Section>, response_type: String },
}

/// What a `Response` holds, as character sequences.
pub enum ResponseView {
    TextResponse { text: Seq<char>, response_type: Seq<char> },
    BlockResponse { blocks: Seq<SectionView>, response_type: Seq<char> },
}

impl View for Response {
    type V = ResponseView;

    open spec fn view(&self) -> ResponseView {
        match self {
            Response::TextResponse { text, response_type } => ResponseView::TextResponse {
                text: text@,
                response_type: response_type@,
            },
            Response::BlockResponse { blocks, response_type } => ResponseView::BlockResponse {
                blocks: Seq::new(blocks@.len(), |i: int| blocks@[i]@),
                response_type: response_type@,
            },
        }
    }
}

/// The fields of a slash command as the chat platform delivers it.
#[derive(Clone, Debug)]
pub struct Parameters {
    pub token: String,
    pub team_id: String,
    pub team_domain: String,
    pub channel_id: String,
    pub channel_name: String,
    pub user_id: String,
    pub user_name: String,
    pub command: String,
    pub text: String,
    pub response_url: String,
    pub trigger_id: String,
    pub api_app_id: String,
}

/// The answer to a request that none of the bot's routes takes.
pub fn not_found() -> (r: &'static str)
    ensures
        r@ == "You are using this tool incorrectly. Please use it through the command line or Slack."@,
{
    "You are using this tool incorrectly. Please use it through the command line or Slack."
}

} // verus!
