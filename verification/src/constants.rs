//! The table of anonymous constants.
//!
//! Literal text that the emitted code needs is kept as module-level
//! constants. The table is the list of constants of the module itself. It is
//! keyed by content: a text is registered the first time it is asked for and
//! found again afterwards, so every site that needs the same text shares one
//! constant and no symbol is ever defined twice. The constant at position `i`
//! of the table is named by [`annon_string_id`] of `i`.

use crate::ir::{GlobalView, Linkage};
use crate::text::{decimal, lemma_decimal_injective};
use vstd::prelude::*;
use vstd::utf8::encode_utf8;

verus! {

/// The symbolic name of the anonymous constant at position `index`.
pub open spec fn annon_string_id(index: nat) -> Seq<char> {
    "annonstr"@ + decimal(index)
}

/// The first position at or after `from` whose constant holds `content`; the
/// length of the table when there is none.
pub open spec fn find(constants: Seq<GlobalView>, content: Seq<char>, from: int) -> int
    decreases constants.len() - from,
{
    if from < 0 || from >= constants.len() {
        constants.len() as int
    } else if constants[from].value == content {
        from
    } else {
        find(constants, content, from + 1)
    }
}

/// The position at which `content` is found once it is interned.
pub open spec fn position(constants: Seq<GlobalView>, content: Seq<char>) -> int {
    find(constants, content, 0)
}

/// The constant that is registered for `content` at position `index`: its
/// array is as long as the UTF-8 encoding of the text, with no terminator,
/// and it is linked internally.
pub open spec fn anonymous_constant(index: nat, content: Seq<char>) -> GlobalView {
    GlobalView {
        name: annon_string_id(index),
        value: content,
        size: encode_utf8(content).len(),
        linkage: Linkage::Internal,
    }
}

/// The table after `content` was interned.
pub open spec fn interned(constants: Seq<GlobalView>, content: Seq<char>) -> Seq<GlobalView> {
    if position(constants, content) < constants.len() {
        constants
    } else {
        constants.push(anonymous_constant(constants.len(), content))
    }
}

/// The name under which `content` is known once it is interned.
pub open spec fn intern_name(constants: Seq<GlobalView>, content: Seq<char>) -> Seq<char> {
    interned(constants, content)[position(constants, content)].name
}

/// A table that was filled by interning alone: names follow the positions
/// and no content occurs twice.
pub open spec fn table_wf(constants: Seq<GlobalView>) -> bool {
    &&& forall|i: int|
        0 <= i < constants.len() ==> (#[trigger] constants[i]).name == annon_string_id(i as nat)
    &&& forall|i: int, j: int|
        0 <= i < j < constants.len() ==> (#[trigger] constants[i]).value
            != (#[trigger] constants[j]).value
}

/// `find` returns `at` when `at` is the first match from `from` on, or the
/// end of the table when nothing matches.
pub proof fn lemma_find_first(
    constants: Seq<GlobalView>,
    content: Seq<char>,
    from: int,
    at: int,
)
    requires
        0 <= from <= at <= constants.len(),
        forall|j: int| from <= j < at ==> (#[trigger] constants[j]).value != content,
        at < constants.len() ==> constants[at].value == content,
    ensures
        find(constants, content, from) == at,
    decreases at - from,
{
    if from < at {
        lemma_find_first(constants, content, from + 1, at);
    }
}

/// What `find` returns is the first match from `from` on.
pub proof fn lemma_find_bounds(constants: Seq<GlobalView>, content: Seq<char>, from: int)
    requires
        0 <= from <= constants.len(),
    ensures
        from <= find(constants, content, from) <= constants.len(),
        find(constants, content, from) < constants.len() ==> constants[find(
            constants,
            content,
            from,
        )].value == content,
        forall|j: int|
            from <= j < find(constants, content, from) ==> (#[trigger] constants[j]).value
                != content,
    decreases constants.len() - from,
{
    if from < constants.len() && constants[from].value != content {
        lemma_find_bounds(constants, content, from + 1);
    }
}

/// Interning is idempotent: a second request for the same content finds the
/// constant of the first, under the same name, and registers nothing.
pub proof fn lemma_intern_idempotent(constants: Seq<GlobalView>, content: Seq<char>)
    ensures
        position(interned(constants, content), content) == position(constants, content),
        position(constants, content) < interned(constants, content).len(),
        interned(interned(constants, content), content) == interned(constants, content),
        intern_name(interned(constants, content), content) == intern_name(constants, content),
{
    lemma_find_bounds(constants, content, 0);
    if position(constants, content) >= constants.len() {
        let extended = constants.push(anonymous_constant(constants.len(), content));
        assert forall|j: int| 0 <= j < constants.len() implies (#[trigger] extended[j]).value
            != content by {
            assert(extended[j] == constants[j]);
        }
        lemma_find_first(extended, content, 0, constants.len() as int);
    }
}

/// Interning keeps a table well formed: the new constant, if there is one,
/// is named after its position and holds a content that was not there.
pub proof fn lemma_intern_wf(constants: Seq<GlobalView>, content: Seq<char>)
    requires
        table_wf(constants),
    ensures
        table_wf(interned(constants, content)),
        intern_name(constants, content) == annon_string_id(position(constants, content) as nat),
{
    lemma_find_bounds(constants, content, 0);
}

/// Different positions have different names.
pub proof fn lemma_names_differ(a: nat, b: nat)
    requires
        a != b,
    ensures
        annon_string_id(a) != annon_string_id(b),
{
    let prefix = "annonstr"@;
    if annon_string_id(a) == annon_string_id(b) {
        assert(decimal(a) =~= annon_string_id(a).subrange(
            prefix.len() as int,
            annon_string_id(a).len() as int,
        ));
        assert(decimal(b) =~= annon_string_id(b).subrange(
            prefix.len() as int,
            annon_string_id(b).len() as int,
        ));
        lemma_decimal_injective(a, b);
    }
}

/// In a well-formed table no symbol is defined twice.
pub proof fn law_table_names_unique(constants: Seq<GlobalView>, i: int, j: int)
    requires
        table_wf(constants),
        0 <= i < constants.len(),
        0 <= j < constants.len(),
        i != j,
    ensures
        constants[i].name != constants[j].name,
{
    lemma_names_differ(i as nat, j as nat);
}

} // verus!
