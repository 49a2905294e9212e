//! Event kinds and per-node listener declarations.
//!
//! The tree only records which listeners a node declares; routing events
//! to listeners is outside this crate, so a listener is carried as a
//! presence flag rather than as a callback.

use vstd::prelude::*;

verus! {

/// Which listeners a node declares, one flag per event kind.
#[derive(Debug, Clone, Copy, PartialEq, Eq, Structural)]
pub struct EventListener {
    /// A click listener is declared.
    pub onclick: bool,
    /// A mouse-enter listener is declared.
    pub onmouseenter: bool,
    /// A mouse-leave listener is declared.
    pub onmouseleave: bool,
    /// A mouse-move listener is declared.
    pub onmousemove: bool,
    /// A mouse-out listener is declared.
    pub onmouseout: bool,
    /// A mouse-over listener is declared.
    pub onmouseover: bool,
    /// A mouse-up listener is declared.
    pub onmouseup: bool,
}

impl EventListener {
    /// The listener bundle declaring nothing.
    pub open spec fn empty_spec() -> EventListener {
        EventListener {
            onclick: false,
            onmouseenter: false,
            onmouseleave: false,
            onmousemove: false,
            onmouseout: false,
            onmouseover: false,
            onmouseup: false,
        }
    }

    /// Whether no listener at all is declared.
    pub fn is_empty(&self) -> (r: bool)
        ensures
            r == (*self == EventListener::empty_spec()),
    {
        !self.onclick && !self.onmouseenter && !self.onmouseleave && !self.onmousemove
            && !self.onmouseout && !self.onmouseover && !self.onmouseup
    }
}

impl Default for EventListener {
    fn default() -> (r: Self)
        ensures
            r == EventListener::empty_spec(),
    {
        EventListener {
            onclick: false,
            onmouseenter: false,
            onmouseleave: false,
            onmousemove: false,
            onmouseout: false,
            onmouseover: false,
            onmouseup: false,
        }
    }
}

/// A builder surface for declaring listeners; every method defaults to
/// declaring nothing and handing the builder back.
pub trait GlobalEventHandler: Sized {
    /// Declare a click listener.
    fn onclick(self) -> Self {
        self
    }

    /// Declare a mouse-enter listener.
    fn onmouseenter(self) -> Self {
        self
    }

    /// Declare a mouse-leave listener.
    fn onmouseleave(self) -> Self {
        self
    }

    /// Declare a mouse-move listener.
    fn onmousemove(self) -> Self {
        self
    }

    /// Declare a mouse-out listener.
    fn onmouseout(self) -> Self {
        self
    }

    /// Declare a mouse-over listener.
    fn onmouseover(self) -> Self {
        self
    }

    /// Declare a mouse-up listener.
    fn onmouseup(self) -> Self {
        self
    }
}

/// An event kind, named for diagnostics.
pub trait Event {
    /// The kind's name as a value.
    spec fn name_spec() -> Seq<char>;

    /// The kind's name.
    fn name(&self) -> (s: &'static str)
        ensures
            s@ == Self::name_spec(),
    ;
}

/// A mouse click.
#[derive(Debug, Clone, Copy, PartialEq, Eq, Structural)]
pub struct Click {}

impl Event for Click {
    open spec fn name_spec() -> Seq<char> {
        "Click"@
    }

    fn name(&self) -> (s: &'static str) {
        "Click"
    }
}

/// The pointer entered the node.
#[derive(Debug, Clone, Copy, PartialEq, Eq, Structural)]
pub struct MouseEnter {}

impl Event for MouseEnter {
    open spec fn name_spec() -> Seq<char> {
        "MouseEnter"@
    }

    fn name(&self) -> (s: &'static str) {
        "MouseEnter"
    }
}

/// The pointer left the node.
#[derive(Debug, Clone, Copy, PartialEq, Eq, Structural)]
pub struct MouseLeave {}

impl Event for MouseLeave {
    open spec fn name_spec() -> Seq<char> {
        "MouseLeave"@
    }

    fn name(&self) -> (s: &'static str) {
        "MouseLeave"
    }
}

/// The pointer moved over the node.
#[derive(Debug, Clone, Copy, PartialEq, Eq, Structural)]
pub struct MouseMove {}

impl Event for MouseMove {
    open spec fn name_spec() -> Seq<char> {
        "MouseMove"@
    }

    fn name(&self) -> (s: &'static str) {
        "MouseMove"
    }
}

/// The pointer moved off the node or one of its children.
#[derive(Debug, Clone, Copy, PartialEq, Eq, Structural)]
pub struct MouseOut {}

impl Event for MouseOut {
    open spec fn name_spec() -> Seq<char> {
        "MouseOut"@
    }

    fn name(&self) -> (s: &'static str) {
        "MouseOut"
    }
}

/// The pointer moved onto the node or one of its children.
#[derive(Debug, Clone, Copy, PartialEq, Eq, Structural)]
pub struct MouseOver {}

impl Event for MouseOver {
    open spec fn name_spec() -> Seq<char> {
        "MouseOver"@
    }

    fn name(&self) -> (s: &'static str) {
        "MouseOver"
    }
}

/// A mouse button was released over the node.
#[derive(Debug, Clone, Copy, PartialEq, Eq, Structural)]
pub struct MouseUp {}

impl Event for MouseUp {
    open spec fn name_spec() -> Seq<char> {
        "MouseUp"@
    }

    fn name(&self) -> (s: &'static str) {
        "MouseUp"
    }
}

} // verus!
