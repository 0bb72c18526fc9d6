//! The cell that holds the name of a patch.

use vstd::prelude::*;

verus! {

/// A name in an `arc_swap::ArcSwap`, from which any thread can load it
/// while another stores a new one.
#[verifier::external_body]
pub struct PatchName {
    cell: arc_swap::ArcSwap<String>,
}

/// The text that the cell holds.
pub uninterp spec fn name_text(name: PatchName) -> Seq<char>;

/// A cell that holds the given text. Wraps `ArcSwapAny::new`, which
/// constructs a storage that holds the pointer handed to it.
#[verifier::external_body]
pub(crate) fn new_name(text: String) -> (name: PatchName)
    ensures
        name_text(name) == text@,
{
    PatchName { cell: arc_swap::ArcSwap::new(std::sync::Arc::new(text)) }
}

/// A copy of the text in the cell. Wraps `ArcSwapAny::load_full`, which
/// returns a copy of the pointer that the storage holds.
#[verifier::external_body]
pub(crate) fn load_name(name: &PatchName) -> (text: String)
    ensures
        text@ == name_text(*name),
{
    (*name.cell.load_full()).clone()
}

/// Puts a text into the cell. Wraps `ArcSwapAny::store`, which replaces the
/// value in the storage, so that further loads yield the new value.
#[verifier::external_body]
pub(crate) fn store_name(name: &mut PatchName, text: String)
    ensures
        name_text(*final(name)) == text@,
{
    name.cell.store(std::sync::Arc::new(text))
}

} // verus!
