//! Naming an entity.

use crate::ui_commands::log_hierarchy::EntityNode;
use bevy::ecs::system::EntityCommands;
use bevy::prelude::Name;
use vstd::prelude::*;

verus! {

/// bevy's `EntityCommands`: an entity, and the queue that takes the commands
/// for it.
#[verifier::external_type_specification]
#[verifier::external_body]
pub struct ExEntityCommands<'a>(EntityCommands<'a>);

/// The texts of the `Name` components whose insertion on the entity of
/// `commands` stands in the queue behind them, oldest first.
pub uninterp spec fn queued_names(commands: EntityCommands<'_>) -> Seq<Seq<char>>;

/// What can be given a name, as an entity is by its `Name` component.
pub trait EntityCommandsNamedExt {
    /// Gives `self` the name, in place of any that it had.
    fn named(&mut self, name: impl Into<String>) -> &mut Self;
}

/// Queues the insertion of a `Name` made of `name`, by bevy's `Name::new` and
/// `EntityCommands::insert`.
///
/// `insert` pushes one command onto the end of the queue, which inserts the
/// component on the entity of the commands when the queue is applied, and
/// returns the `&mut self` that it was called on. So the names queued for the
/// entity are those that were, then this one; and what is done through the
/// commands that come back is done to `commands`.
#[verifier::external_body]
fn insert_name<'a, 'b>(commands: &'a mut EntityCommands<'b>, name: String) -> (queued:
    &'a mut EntityCommands<'b>)
    ensures
        queued_names(*queued) == queued_names(*old(commands)).push(name@),
        *final(commands) == *final(queued),
{
    commands.insert(Name::new(name))
}

impl EntityCommandsNamedExt for EntityCommands<'_> {
    /// Queues the insertion of a `Name` component on the entity of these
    /// commands, behind the names that are queued for it already, and hands
    /// the commands back for the next call. The name is the `String` that
    /// `name` converts into.
    fn named(&mut self, name: impl Into<String>) -> (commands: &mut Self)
        ensures
            exists|text: String|
                call_ensures(Into::into, (name,), text) && queued_names(*commands)
                    == queued_names(*old(self)).push(text@),
            *final(self) == *final(commands),
    {
        insert_name(self, name.into())
    }
}

impl EntityCommandsNamedExt for EntityNode {
    /// Names the entity of this node. The name is the `String` that `name`
    /// converts into; nothing else of the node changes.
    fn named(&mut self, name: impl Into<String>) -> (node: &mut Self)
        ensures
            node.name matches Some(text) && call_ensures(Into::into, (name,), text),
            node.id == old(self).id,
            node.components == old(self).components,
            node.children == old(self).children,
            *final(self) == *final(node),
    {
        self.name = Some(name.into());
        self
    }
}

} // verus!
