//! Interaction classification of an accessibility element from the patterns it supports.
//!
//! The caller reads the element (cached or current properties); this module decides.

use vstd::prelude::*;
use crate::hint::ElementKind;

verus! {

/// `UIA_ButtonControlTypeId`.
pub const CONTROL_BUTTON: i32 = 50000;
/// `UIA_CheckBoxControlTypeId`.
pub const CONTROL_CHECK_BOX: i32 = 50002;
/// `UIA_ComboBoxControlTypeId`.
pub const CONTROL_COMBO_BOX: i32 = 50003;
/// `UIA_EditControlTypeId`.
pub const CONTROL_EDIT: i32 = 50004;
/// `UIA_HyperlinkControlTypeId`.
pub const CONTROL_HYPERLINK: i32 = 50005;
/// `UIA_ListItemControlTypeId`.
pub const CONTROL_LIST_ITEM: i32 = 50007;
/// `UIA_MenuItemControlTypeId`.
pub const CONTROL_MENU_ITEM: i32 = 50011;
/// `UIA_RadioButtonControlTypeId`.
pub const CONTROL_RADIO_BUTTON: i32 = 50013;
/// `UIA_TabItemControlTypeId`.
pub const CONTROL_TAB_ITEM: i32 = 50019;
/// `UIA_TreeItemControlTypeId`.
pub const CONTROL_TREE_ITEM: i32 = 50024;
/// `UIA_CustomControlTypeId`.
pub const CONTROL_CUSTOM: i32 = 50025;
/// `UIA_DocumentControlTypeId`.
pub const CONTROL_DOCUMENT: i32 = 50030;
/// `UIA_SplitButtonControlTypeId`.
pub const CONTROL_SPLIT_BUTTON: i32 = 50031;

/// What was read from one element: which patterns it offers and a few properties
/// (`None` where the read failed).
#[derive(Clone, Copy, Debug, PartialEq, Eq, Structural)]
pub struct PatternFacts {
    pub invoke: bool,
    pub toggle: bool,
    pub selection_item: bool,
    pub expand_collapse: bool,
    pub legacy: bool,
    pub value: bool,
    pub control_type: Option<i32>,
    pub keyboard_focusable: Option<bool>,
    /// The name could be read and is not empty.
    pub name_nonempty: bool,
}

/// Text-entry controls.
pub open spec fn is_text_control(ct: i32) -> bool {
    ct == CONTROL_EDIT || ct == CONTROL_DOCUMENT
}

/// Controls that are clickable when keyboard-focusable.
pub open spec fn is_interactive_control(ct: i32) -> bool {
    ||| ct == CONTROL_BUTTON
    ||| ct == CONTROL_CHECK_BOX
    ||| ct == CONTROL_RADIO_BUTTON
    ||| ct == CONTROL_HYPERLINK
    ||| ct == CONTROL_LIST_ITEM
    ||| ct == CONTROL_MENU_ITEM
    ||| ct == CONTROL_TAB_ITEM
    ||| ct == CONTROL_TREE_ITEM
    ||| ct == CONTROL_SPLIT_BUTTON
    ||| ct == CONTROL_COMBO_BOX
}

/// The kind of an element that offers only the Value pattern.
pub open spec fn value_kind(f: PatternFacts) -> Option<ElementKind> {
    match f.control_type {
        None => None,
        Some(ct) => if is_text_control(ct) || ct == CONTROL_COMBO_BOX {
            Some(ElementKind::Editable)
        } else {
            Some(ElementKind::GenericClickable)
        },
    }
}

/// Focusable leaf controls without dedicated patterns.
pub open spec fn focusable_kind(f: PatternFacts) -> Option<ElementKind> {
    match (f.keyboard_focusable, f.control_type) {
        (Some(true), Some(ct)) => if is_text_control(ct) {
            Some(ElementKind::Editable)
        } else if is_interactive_control(ct) {
            Some(ElementKind::GenericClickable)
        } else {
            None
        },
        _ => None,
    }
}

/// Custom controls that have a name or take keyboard focus.
pub open spec fn custom_kind(f: PatternFacts) -> Option<ElementKind> {
    match f.control_type {
        Some(ct) => if ct == CONTROL_CUSTOM && (f.name_nonempty || f.keyboard_focusable == Some(true)) {
            Some(ElementKind::GenericClickable)
        } else {
            None
        },
        None => None,
    }
}

/// The best dispatch kind: the highest-priority pattern wins, then focusable controls,
/// then named or focusable custom controls.
pub open spec fn classify_spec(f: PatternFacts) -> Option<ElementKind> {
    if f.invoke {
        Some(ElementKind::Invoke)
    } else if f.toggle {
        Some(ElementKind::Toggle)
    } else if f.selection_item {
        Some(ElementKind::Select)
    } else if f.expand_collapse {
        Some(ElementKind::ExpandCollapse)
    } else if f.legacy {
        Some(ElementKind::GenericClickable)
    } else if f.value {
        value_kind(f)
    } else if focusable_kind(f) is Some {
        focusable_kind(f)
    } else {
        custom_kind(f)
    }
}

/// Best dispatch kind for an element (highest-priority pattern wins), or `None` when it
/// offers no interaction.
pub fn classify_interaction_kind(f: &PatternFacts) -> (r: Option<ElementKind>)
    ensures
        r == classify_spec(*f),
{
    if f.invoke {
        return Some(ElementKind::Invoke);
    }
    if f.toggle {
        return Some(ElementKind::Toggle);
    }
    if f.selection_item {
        return Some(ElementKind::Select);
    }
    if f.expand_collapse {
        return Some(ElementKind::ExpandCollapse);
    }
    if f.legacy {
        return Some(ElementKind::GenericClickable);
    }
    if f.value {
        return match f.control_type {
            None => None,
            Some(ct) => if ct == CONTROL_EDIT || ct == CONTROL_DOCUMENT || ct == CONTROL_COMBO_BOX {
                Some(ElementKind::Editable)
            } else {
                Some(ElementKind::GenericClickable)
            },
        };
    }
    let focusable = match (f.keyboard_focusable, f.control_type) {
        (Some(true), Some(ct)) => if ct == CONTROL_EDIT || ct == CONTROL_DOCUMENT {
            Some(ElementKind::Editable)
        } else if ct == CONTROL_BUTTON || ct == CONTROL_CHECK_BOX || ct == CONTROL_RADIO_BUTTON
            || ct == CONTROL_HYPERLINK || ct == CONTROL_LIST_ITEM || ct == CONTROL_MENU_ITEM
            || ct == CONTROL_TAB_ITEM || ct == CONTROL_TREE_ITEM || ct == CONTROL_SPLIT_BUTTON
            || ct == CONTROL_COMBO_BOX {
            Some(ElementKind::GenericClickable)
        } else {
            None
        },
        _ => None,
    };
    if focusable.is_some() {
        return focusable;
    }
    match f.control_type {
        Some(ct) => {
            let kb = match f.keyboard_focusable {
                Some(b) => b,
                None => false,
            };
            if ct == CONTROL_CUSTOM && (f.name_nonempty || kb) {
                Some(ElementKind::GenericClickable)
            } else {
                None
            }
        },
        None => None,
    }
}

/// An element offering the Invoke pattern is always an invoke target, whatever else it offers.
pub proof fn lemma_invoke_wins(f: PatternFacts)
    requires
        f.invoke,
    ensures
        classify_spec(f) == Some(ElementKind::Invoke),
{
}

/// Without any pattern, only keyboard-focusable or named controls are classified.
pub proof fn lemma_no_pattern_needs_focus_or_name(f: PatternFacts)
    requires
        !f.invoke && !f.toggle && !f.selection_item && !f.expand_collapse && !f.legacy && !f.value,
        f.keyboard_focusable != Some(true),
        !f.name_nonempty,
    ensures
        classify_spec(f) is None,
{
}

/// Focus in a single-line edit or combo box keeps a plain `/` for the application
/// (`control_type` is the focused element's, when it could be read).
pub fn control_suppresses_plain_slash(control_type: Option<i32>) -> (b: bool)
    ensures
        b == (control_type == Some(CONTROL_EDIT) || control_type == Some(CONTROL_COMBO_BOX)),
{
    match control_type {
        Some(ct) => ct == CONTROL_EDIT || ct == CONTROL_COMBO_BOX,
        None => false,
    }
}


/// Pattern precedence: an element is classified by the first pattern it offers in the
/// order Invoke, Toggle, SelectionItem, ExpandCollapse, LegacyIAccessible, whatever else it
/// offers; in particular an element offering SelectionItem but neither Invoke nor Toggle
/// is a selection target even when it also expands or collapses.
pub proof fn lemma_pattern_precedence(f: PatternFacts)
    ensures
        f.invoke ==> classify_spec(f) == Some(ElementKind::Invoke),
        !f.invoke && f.toggle ==> classify_spec(f) == Some(ElementKind::Toggle),
        !f.invoke && !f.toggle && f.selection_item ==> classify_spec(f) == Some(ElementKind::Select),
        !f.invoke && !f.toggle && !f.selection_item && f.expand_collapse
            ==> classify_spec(f) == Some(ElementKind::ExpandCollapse),
        !f.invoke && !f.toggle && !f.selection_item && !f.expand_collapse && f.legacy
            ==> classify_spec(f) == Some(ElementKind::GenericClickable),
{
}

/// Offering a pattern of lower precedence as well never changes the kind of an element
/// that offers a pattern: adding ExpandCollapse, LegacyIAccessible or Value to a selection
/// target keeps it a selection target, and so on down the order.
pub proof fn lemma_lower_pattern_does_not_change_kind(f: PatternFacts, g: PatternFacts)
    requires
        f.invoke == g.invoke,
        f.toggle == g.toggle,
        f.selection_item == g.selection_item,
        f.invoke || f.toggle || f.selection_item,
    ensures
        classify_spec(f) == classify_spec(g),
        classify_spec(f) is Some,
        classify_spec(f) != Some(ElementKind::ExpandCollapse),
{
}

} // verus!
