//! The settings page: its sections, and what saving stores.

use vstd::prelude::*;
use crate::text::{joined, trim_spec, trim_text};

verus! {

/// A section of the settings page.
#[derive(Clone, Copy, Debug, PartialEq, Eq, Structural)]
pub enum Section {
    /// The endpoint, the key and the model of the assistant.
    AiModel,
    /// The directory of the boards.
    Workspace,
}

impl Section {
    /// The label in the sidebar.
    pub open spec fn title(self) -> Seq<char> {
        match self {
            Section::AiModel => "AI 模型"@,
            Section::Workspace => "工作区"@,
        }
    }

    /// The label in the sidebar.
    pub fn label(self) -> (r: &'static str)
        ensures
            r@ == self.title(),
    {
        match self {
            Section::AiModel => "AI 模型",
            Section::Workspace => "工作区",
        }
    }

    /// The sections in the order of the sidebar.
    pub fn all() -> (r: [Section; 2])
        ensures
            r@ == seq![Section::AiModel, Section::Workspace],
    {
        [Section::AiModel, Section::Workspace]
    }
}

/// The settings of the assistant.
#[derive(Debug)]
pub struct AiSettings {
    pub base_url: String,
    pub api_key: String,
    pub model: String,
    /// Set elsewhere; saving the page keeps it.
    pub reasoning_effort: String,
}

/// A field without the space around it, or the default when nothing is left.
pub open spec fn field_or(value: Seq<char>, default: Seq<char>) -> Seq<char> {
    if trim_spec(value).len() == 0 {
        default
    } else {
        trim_spec(value)
    }
}

fn field(value: &str, default: &str) -> (r: String)
    ensures
        r@ == field_or(value@, default@),
{
    let trimmed: String = trim_text(value);
    if trimmed.as_str().is_empty() {
        default.to_owned()
    } else {
        trimmed
    }
}

/// The message beside the save button.
#[derive(Debug)]
pub struct SettingsNotice {
    pub is_error: bool,
    pub text: String,
}

/// The value of a notice.
pub open spec fn notice_view(n: Option<SettingsNotice>) -> Option<(bool, Seq<char>)> {
    match n {
        Some(x) => Some((x.is_error, x.text@)),
        None => None,
    }
}

/// The state of the settings page.
#[derive(Debug)]
pub struct SettingsPage {
    pub active: Section,
    pub notice: Option<SettingsNotice>,
}

impl SettingsPage {
    /// The page at its first section.
    pub fn new() -> (r: SettingsPage)
        ensures
            r.active == Section::AiModel,
            r.notice is None,
    {
        SettingsPage { active: Section::AiModel, notice: None }
    }

    /// Opens the page again: the last message is gone, the section stays.
    pub fn open(&mut self)
        ensures
            final(self).active == old(self).active,
            final(self).notice is None,
    {
        self.notice = None;
    }

    /// Goes to a section; the message is gone.
    pub fn pick(&mut self, section: Section)
        ensures
            final(self).active == section,
            final(self).notice is None,
    {
        self.active = section;
        self.notice = None;
    }

    /// Shows how saving went.
    pub fn saved(&mut self, failure: Option<&str>)
        ensures
            final(self).active == old(self).active,
            notice_view(final(self).notice) == (match failure {
                None => Some((false, "设置已保存"@)),
                Some(e) => Some((true, "保存失败: "@ + e@)),
            }),
    {
        self.notice = Some(
            match failure {
                None => SettingsNotice { is_error: false, text: "设置已保存".to_owned() },
                Some(e) => SettingsNotice { is_error: true, text: joined("保存失败: ", e) },
            },
        );
    }
}

/// The settings to store for the fields of the page: blank addresses and
/// models fall back to the defaults, and what the page does not show is kept.
pub fn settings_to_save(
    base_url: &str,
    api_key: &str,
    model: &str,
    stored: &AiSettings,
    defaults: &AiSettings,
) -> (r: AiSettings)
    ensures
        r.base_url@ == field_or(base_url@, defaults.base_url@),
        r.api_key@ == trim_spec(api_key@),
        r.model@ == field_or(model@, defaults.model@),
        r.reasoning_effort@ == stored.reasoning_effort@,
{
    AiSettings {
        base_url: field(base_url, defaults.base_url.as_str()),
        api_key: trim_text(api_key),
        model: field(model, defaults.model.as_str()),
        reasoning_effort: stored.reasoning_effort.clone(),
    }
}

} // verus!
