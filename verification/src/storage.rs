//! Template data comes in two storages: `'static` references for what is known at compile time,
//! and heap containers for what is made at run time. The traits here read either.
use vstd::prelude::*;

verus! {

/// A container that can be read as a slice.
pub trait AsSlice<T> {
    /// The elements of the container, in order.
    spec fn elements(&self) -> Seq<T>;

    /// The elements of the container as a slice.
    fn as_slice(&self) -> (res: &[T])
        ensures
            res@ == self.elements(),
    ;
}

impl<T> AsSlice<T> for Vec<T> {
    open spec fn elements(&self) -> Seq<T> {
        self@
    }

    fn as_slice(&self) -> (res: &[T]) {
        Vec::as_slice(self)
    }
}

impl<'a, T> AsSlice<T> for &'a [T] {
    open spec fn elements(&self) -> Seq<T> {
        self@
    }

    fn as_slice(&self) -> (res: &[T]) {
        *self
    }
}

impl<T, const N: usize> AsSlice<T> for [T; N] {
    open spec fn elements(&self) -> Seq<T> {
        self@
    }

    fn as_slice(&self) -> (res: &[T]) {
        <[T; N]>::as_slice(self)
    }
}

/// A text that can be read as a string slice.
pub trait AsText {
    /// The characters of the text.
    spec fn text(&self) -> Seq<char>;

    /// The text as a string slice.
    fn as_text(&self) -> (res: &str)
        ensures
            res@ == self.text(),
    ;
}

impl AsText for String {
    open spec fn text(&self) -> Seq<char> {
        self@
    }

    fn as_text(&self) -> (res: &str) {
        self.as_str()
    }
}

impl<'a> AsText for &'a str {
    open spec fn text(&self) -> Seq<char> {
        self@
    }

    fn as_text(&self) -> (res: &str) {
        *self
    }
}

/// The characters of an optional string slice.
pub open spec fn optional_text(text: Option<&str>) -> Option<Seq<char>> {
    match text {
        Some(characters) => Some(characters@),
        None => None,
    }
}

/// What a container holds and what a text says is the same whichever way it is stored, and it is all
/// that is there, in order.
pub proof fn law_storage_holds_everything<T, const N: usize>(
    vec: Vec<T>,
    slice: &[T],
    array: [T; N],
    string: String,
    text: &str,
    optional: Option<&str>,
)
    ensures
        vec.elements() == vec@,
        slice.elements() == slice@,
        array.elements() == array@,
        string.text() == string@,
        text.text() == text@,
        optional_text(optional) is Some <==> optional is Some,
        optional is Some ==> optional_text(optional)->0 == optional->0@,
{
}

} // verus!
