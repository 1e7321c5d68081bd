//! Replacing the sections of an entity's text.

use crate::entity::{entity_debug_text, EntityId};
use vstd::prelude::*;

verus! {

/// A run of text in one style. The style is bevy's to interpret: here it is
/// carried along.
pub struct TextSection<S> {
    pub value: String,
    pub style: S,
}

/// What a text command comes to.
pub enum TextUpdate<S> {
    /// The sections that the entity's text is to hold from now on.
    Sections(Vec<TextSection<S>>),
    /// The entity has no text; this is the warning to log.
    Warning(String),
}

/// The warning for an entity without text, where `what` was to be set.
pub open spec fn spec_missing_text_warning(what: Seq<char>, id_text: Seq<char>) -> Seq<char> {
    "Failed to set "@ + what + " on entity "@ + id_text + ": No Text component found!"@
}

/// The warning for an entity without text, given the text of its identifier.
pub fn missing_text_warning(what: &str, id_text: &str) -> (warning: String)
    ensures
        warning@ == spec_missing_text_warning(what@, id_text@),
{
    let mut warning = String::from_str("Failed to set ");
    warning.append(what);
    warning.append(" on entity ");
    warning.append(id_text);
    warning.append(": No Text component found!");
    warning
}

/// Replaces the sections of an entity's text by the given ones.
pub struct SetTextSections<S> {
    pub sections: Vec<TextSection<S>>,
}

impl<S> SetTextSections<S> {
    /// The new sections of the text of `entity`, or the warning where it has
    /// no text.
    pub fn apply(self, entity: &EntityId, has_text: bool) -> (update: TextUpdate<S>)
        ensures
            update is Sections <==> has_text,
            update matches TextUpdate::Sections(sections) ==> sections == self.sections,
            update matches TextUpdate::Warning(warning) ==> warning@
                == spec_missing_text_warning(
                "text sections"@,
                entity_debug_text(entity.bits()),
            ),
    {
        if has_text {
            TextUpdate::Sections(self.sections)
        } else {
            let id_text = entity.debug_text();
            TextUpdate::Warning(missing_text_warning("text sections", id_text.as_str()))
        }
    }
}

/// Replaces the sections of an entity's text by a single one.
pub struct SetText<S> {
    pub text: String,
    pub style: S,
}

impl<S> SetText<S> {
    /// The command that sets `text` in `style`, or in the default style where
    /// none is given.
    pub fn new(text: String, style: Option<S>) -> (command: SetText<S>) where S: Default
        ensures
            command.text == text,
            style matches Some(given) ==> command.style == given,
            style is None ==> call_ensures(S::default, (), command.style),
    {
        let style = match style {
            Some(given) => given,
            None => S::default(),
        };
        SetText { text, style }
    }

    /// The one section that the text of `entity` is to hold, or the warning
    /// where it has no text.
    pub fn apply(self, entity: &EntityId, has_text: bool) -> (update: TextUpdate<S>)
        ensures
            update is Sections <==> has_text,
            update matches TextUpdate::Sections(sections) ==> sections@ == seq![
                (TextSection { value: self.text, style: self.style }),
            ],
            update matches TextUpdate::Warning(warning) ==> warning@
                == spec_missing_text_warning("text"@, entity_debug_text(entity.bits())),
    {
        if has_text {
            let mut sections: Vec<TextSection<S>> = Vec::new();
            sections.push(TextSection { value: self.text, style: self.style });
            TextUpdate::Sections(sections)
        } else {
            let id_text = entity.debug_text();
            TextUpdate::Warning(missing_text_warning("text", id_text.as_str()))
        }
    }
}

} // verus!
