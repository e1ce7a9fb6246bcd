//! Where in the source code a template was written.
use std::hash::{Hash, Hasher};
use vstd::prelude::*;
use vstd::std_specs::cmp::PartialEqSpec;
use vstd::std_specs::convert::FromSpec;

verus! {

/// `==` on two string slices compares their characters.
pub assume_specification[ <str as PartialEq<str>>::eq ](a: &str, b: &str) -> (res: bool)
    ensures
        res == (a@ == b@),
;

/// Feeds a string slice to a hasher with `<str as Hash>::hash`. Nothing is claimed of the hasher
/// afterwards: what a hasher does with its input is its own.
#[verifier::external_body]
pub fn hash_str<H: Hasher>(text: &str, state: &mut H) {
    text.hash(state)
}

/// Feeds a number to a hasher with `Hasher::write_u32`. Nothing is claimed of the hasher
/// afterwards: what a hasher does with its input is its own.
#[verifier::external_body]
pub fn hash_u32<H: Hasher>(number: u32, state: &mut H) {
    state.write_u32(number)
}

/// What a code location says, whichever way it is stored.
pub struct LocationView {
    pub crate_path: Seq<char>,
    pub file_path: Seq<char>,
    pub line: u32,
    pub column: u32,
}

/// The four parts of a code location, in the order in which they are hashed.
pub type LocationParts = (Seq<char>, Seq<char>, u32, u32);

impl LocationView {
    /// The parts of the location.
    pub open spec fn parts(self) -> LocationParts {
        (self.crate_path, self.file_path, self.line, self.column)
    }
}

/// The location of a character. Used to track where templates are written, for hot reloading.
#[derive(Debug)]
pub struct StaticCodeLocation {
    /// the path to the crate that contains the location
    pub crate_path: &'static str,
    /// the path within the crate to the file that contains the location
    pub file_path: &'static str,
    /// the line number of the location
    pub line: u32,
    /// the column number of the location
    pub column: u32,
}

impl View for StaticCodeLocation {
    type V = LocationView;

    open spec fn view(&self) -> LocationView {
        LocationView {
            crate_path: self.crate_path@,
            file_path: self.file_path@,
            line: self.line,
            column: self.column,
        }
    }
}

impl Clone for StaticCodeLocation {
    fn clone(&self) -> (res: Self)
        ensures
            res == *self,
    {
        StaticCodeLocation {
            crate_path: self.crate_path,
            file_path: self.file_path,
            line: self.line,
            column: self.column,
        }
    }
}

impl PartialEq for StaticCodeLocation {
    fn eq(&self, other: &Self) -> (res: bool) {
        *self.crate_path == *other.crate_path && *self.file_path == *other.file_path && self.line
            == other.line && self.column == other.column
    }
}

impl vstd::std_specs::cmp::PartialEqSpecImpl for StaticCodeLocation {
    open spec fn obeys_eq_spec() -> bool {
        true
    }

    open spec fn eq_spec(&self, other: &Self) -> bool {
        self@ == other@
    }
}

impl Eq for StaticCodeLocation {

}

/// A location that owns its paths, for templates that are made at run time.
#[derive(Debug)]
pub struct OwnedCodeLocation {
    /// the path to the crate that contains the location
    pub crate_path: String,
    /// the path within the crate to the file that contains the location
    pub file_path: String,
    /// the line number of the location
    pub line: u32,
    /// the column number of the location
    pub column: u32,
}

impl View for OwnedCodeLocation {
    type V = LocationView;

    open spec fn view(&self) -> LocationView {
        LocationView {
            crate_path: self.crate_path@,
            file_path: self.file_path@,
            line: self.line,
            column: self.column,
        }
    }
}

impl Clone for OwnedCodeLocation {
    fn clone(&self) -> (res: Self)
        ensures
            res == *self,
    {
        OwnedCodeLocation {
            crate_path: self.crate_path.clone(),
            file_path: self.file_path.clone(),
            line: self.line,
            column: self.column,
        }
    }
}

impl PartialEq for OwnedCodeLocation {
    fn eq(&self, other: &Self) -> (res: bool) {
        self.crate_path == other.crate_path && self.file_path == other.file_path && self.line
            == other.line && self.column == other.column
    }
}

impl vstd::std_specs::cmp::PartialEqSpecImpl for OwnedCodeLocation {
    open spec fn obeys_eq_spec() -> bool {
        true
    }

    open spec fn eq_spec(&self, other: &Self) -> bool {
        self@ == other@
    }
}

impl Eq for OwnedCodeLocation {

}

impl PartialEq<StaticCodeLocation> for OwnedCodeLocation {
    fn eq(&self, other: &StaticCodeLocation) -> (res: bool) {
        *self.crate_path.as_str() == *other.crate_path && *self.file_path.as_str()
            == *other.file_path && self.line == other.line && self.column == other.column
    }
}

impl vstd::std_specs::cmp::PartialEqSpecImpl<StaticCodeLocation> for OwnedCodeLocation {
    open spec fn obeys_eq_spec() -> bool {
        true
    }

    open spec fn eq_spec(&self, other: &StaticCodeLocation) -> bool {
        self@ == other@
    }
}

/// The location of a character, made either at compile time or at run time.
#[derive(Debug)]
pub enum CodeLocation {
    /// A location that is created at compile time.
    Static(&'static StaticCodeLocation),
    /// A location that is created at run time.
    Dynamic(Box<OwnedCodeLocation>),
}

impl View for CodeLocation {
    type V = LocationView;

    open spec fn view(&self) -> LocationView {
        match self {
            CodeLocation::Static(loc) => loc@,
            CodeLocation::Dynamic(loc) => (*loc)@,
        }
    }
}

impl Clone for CodeLocation {
    fn clone(&self) -> (res: Self)
        ensures
            res == *self,
    {
        match self {
            CodeLocation::Static(loc) => CodeLocation::Static(*loc),
            CodeLocation::Dynamic(loc) => CodeLocation::Dynamic(Box::new((**loc).clone())),
        }
    }
}

impl From<OwnedCodeLocation> for CodeLocation {
    /// A location that was read is one that is created at run time.
    fn from(loc: OwnedCodeLocation) -> (res: Self) {
        CodeLocation::Dynamic(Box::new(loc))
    }
}

impl vstd::std_specs::convert::FromSpecImpl<OwnedCodeLocation> for CodeLocation {
    open spec fn obeys_from_spec() -> bool {
        true
    }

    open spec fn from_spec(loc: OwnedCodeLocation) -> CodeLocation {
        CodeLocation::Dynamic(Box::new(loc))
    }
}

impl Hash for CodeLocation {
    /// Feeds the four parts of [`CodeLocation::hash_parts`] to the hasher, in their order and nothing
    /// else: each feed finds the hasher as the one before left it.
    fn hash<H: Hasher>(&self, state: &mut H)
        ensures
            exists|a: &str, b: &str, m1: &mut H, m2: &mut H, m3: &mut H, m4: &mut H|
                {
                    &&& #[trigger] call_ensures(hash_str::<H>, (a, m1), ())
                    &&& #[trigger] call_ensures(hash_str::<H>, (b, m2), ())
                    &&& #[trigger] call_ensures(hash_u32::<H>, (self@.line, m3), ())
                    &&& #[trigger] call_ensures(hash_u32::<H>, (self@.column, m4), ())
                    &&& a@ == self@.crate_path
                    &&& b@ == self@.file_path
                    &&& *m1 == *old(state)
                    &&& *m2 == *final(m1)
                    &&& *m3 == *final(m2)
                    &&& *m4 == *final(m3)
                    &&& *final(m4) == *final(state)
                },
    {
        let feed_str = hash_str::<H>;
        let feed_u32 = hash_u32::<H>;
        let (crate_path, file_path, line, column) = self.hash_parts();
        feed_str(crate_path, state);
        feed_str(file_path, state);
        feed_u32(line, state);
        feed_u32(column, state);
    }
}

impl PartialEq for CodeLocation {
    fn eq(&self, other: &Self) -> (res: bool) {
        match (self, other) {
            (CodeLocation::Static(l), CodeLocation::Static(r)) => **l == **r,
            (CodeLocation::Dynamic(l), CodeLocation::Dynamic(r)) => **l == **r,
            (CodeLocation::Static(l), CodeLocation::Dynamic(r)) => **r == **l,
            (CodeLocation::Dynamic(l), CodeLocation::Static(r)) => **l == **r,
        }
    }
}

impl vstd::std_specs::cmp::PartialEqSpecImpl for CodeLocation {
    open spec fn obeys_eq_spec() -> bool {
        true
    }

    open spec fn eq_spec(&self, other: &Self) -> bool {
        self@ == other@
    }
}

impl Eq for CodeLocation {

}

impl CodeLocation {
    /// Get the line number of the location.
    pub fn line(&self) -> (res: u32)
        ensures
            res == self@.line,
    {
        match self {
            CodeLocation::Static(loc) => loc.line,
            CodeLocation::Dynamic(loc) => loc.line,
        }
    }

    /// Get the column number of the location.
    pub fn column(&self) -> (res: u32)
        ensures
            res == self@.column,
    {
        match self {
            CodeLocation::Static(loc) => loc.column,
            CodeLocation::Dynamic(loc) => loc.column,
        }
    }

    /// Get the path within the crate to the location.
    pub fn file_path(&self) -> (res: &str)
        ensures
            res@ == self@.file_path,
    {
        match self {
            CodeLocation::Static(loc) => loc.file_path,
            CodeLocation::Dynamic(loc) => loc.file_path.as_str(),
        }
    }

    /// Get the path of the crate to the location.
    pub fn crate_path(&self) -> (res: &str)
        ensures
            res@ == self@.crate_path,
    {
        match self {
            CodeLocation::Static(loc) => loc.crate_path,
            CodeLocation::Dynamic(loc) => loc.crate_path.as_str(),
        }
    }

    /// What a hasher is fed for the location: the two paths, the line and the column.
    pub fn hash_parts(&self) -> (res: (&str, &str, u32, u32))
        ensures
            (res.0@, res.1@, res.2, res.3) == self@.parts(),
    {
        (self.crate_path(), self.file_path(), self.line(), self.column())
    }

    /// Create an owned code location from a code location.
    pub fn to_owned(&self) -> (res: OwnedCodeLocation)
        ensures
            res@ == self@,
    {
        match self {
            CodeLocation::Static(loc) => OwnedCodeLocation {
                crate_path: loc.crate_path.to_owned(),
                file_path: loc.file_path.to_owned(),
                line: loc.line,
                column: loc.column,
            },
            CodeLocation::Dynamic(loc) => (**loc).clone(),
        }
    }
}

/// A template's unique identifier within the document: the place in the code where the template
/// was created.
#[derive(Hash, Debug)]
pub struct TemplateId(pub CodeLocation);

impl View for TemplateId {
    type V = LocationView;

    open spec fn view(&self) -> LocationView {
        self.0@
    }
}

impl Clone for TemplateId {
    fn clone(&self) -> (res: Self)
        ensures
            res == *self,
    {
        TemplateId(self.0.clone())
    }
}

impl PartialEq for TemplateId {
    fn eq(&self, other: &Self) -> (res: bool) {
        self.0 == other.0
    }
}

impl vstd::std_specs::cmp::PartialEqSpecImpl for TemplateId {
    open spec fn obeys_eq_spec() -> bool {
        true
    }

    open spec fn eq_spec(&self, other: &Self) -> bool {
        self@ == other@
    }
}

impl Eq for TemplateId {

}

/// Equality of locations is an equivalence, also between the two storages.
pub proof fn law_location_equality_is_an_equivalence(
    a: CodeLocation,
    b: CodeLocation,
    c: CodeLocation,
)
    ensures
        a.eq_spec(&a),
        a.eq_spec(&b) == b.eq_spec(&a),
        a.eq_spec(&b) && b.eq_spec(&c) ==> a.eq_spec(&c),
{
}

/// Equality of locations compares all of their parts and nothing else: not the storage.
pub proof fn law_location_equality_ignores_the_storage(
    fixed: &'static StaticCodeLocation,
    owned: OwnedCodeLocation,
)
    ensures
        CodeLocation::Static(fixed).eq_spec(&CodeLocation::Dynamic(Box::new(owned))) <==> {
            &&& fixed.crate_path@ == owned.crate_path@
            &&& fixed.file_path@ == owned.file_path@
            &&& fixed.line == owned.line
            &&& fixed.column == owned.column
        },
        CodeLocation::Static(fixed).eq_spec(&CodeLocation::Dynamic(Box::new(owned)))
            == PartialEqSpec::<StaticCodeLocation>::eq_spec(&owned, fixed),
{
}

/// Equal locations feed a hasher alike, whatever their storage: each chain of feeds by which hashing
/// the one can take a hasher from `before` to `after` is one by which hashing the other can.
pub proof fn law_equal_locations_hash_alike<H: Hasher>(
    first: CodeLocation,
    second: CodeLocation,
    before: H,
    after: H,
)
    requires
        first.eq_spec(&second),
    ensures
        (exists|a: &str, b: &str, m1: &mut H, m2: &mut H, m3: &mut H, m4: &mut H|
            {
                &&& #[trigger] call_ensures(hash_str::<H>, (a, m1), ())
                &&& #[trigger] call_ensures(hash_str::<H>, (b, m2), ())
                &&& #[trigger] call_ensures(hash_u32::<H>, (first@.line, m3), ())
                &&& #[trigger] call_ensures(hash_u32::<H>, (first@.column, m4), ())
                &&& a@ == first@.crate_path
                &&& b@ == first@.file_path
                &&& *m1 == before
                &&& *m2 == *final(m1)
                &&& *m3 == *final(m2)
                &&& *m4 == *final(m3)
                &&& *final(m4) == after
            }) ==> (exists|a: &str, b: &str, m1: &mut H, m2: &mut H, m3: &mut H, m4: &mut H|
            {
                &&& #[trigger] call_ensures(hash_str::<H>, (a, m1), ())
                &&& #[trigger] call_ensures(hash_str::<H>, (b, m2), ())
                &&& #[trigger] call_ensures(hash_u32::<H>, (second@.line, m3), ())
                &&& #[trigger] call_ensures(hash_u32::<H>, (second@.column, m4), ())
                &&& a@ == second@.crate_path
                &&& b@ == second@.file_path
                &&& *m1 == before
                &&& *m2 == *final(m1)
                &&& *m3 == *final(m2)
                &&& *m4 == *final(m3)
                &&& *final(m4) == after
            }),
{
}

/// Locations are equal exactly where all of their parts are.
pub proof fn law_equal_locations_have_equal_parts(a: CodeLocation, b: CodeLocation)
    ensures
        a.eq_spec(&b) <==> a@.parts() == b@.parts(),
{
}

/// A location that is made of the parts of another one is created at run time and equal to it,
/// whichever way that one is stored.
pub proof fn law_a_location_can_be_read_back(location: CodeLocation, owned: OwnedCodeLocation)
    requires
        owned@ == location@,
    ensures
        CodeLocation::from_spec(owned) is Dynamic,
        CodeLocation::from_spec(owned)@ == location@,
        CodeLocation::from_spec(owned).eq_spec(&location),
{
}

/// Two template ids are equal exactly where they name the same place in the code.
pub proof fn law_template_ids_are_locations(a: TemplateId, b: TemplateId)
    ensures
        a.eq_spec(&b) <==> a.0.eq_spec(&b.0),
        a.eq_spec(&b) <==> a@.parts() == b@.parts(),
{
}

/// What a location says is what its fields hold, whichever way it is stored.
pub proof fn law_what_a_location_says(
    fixed: &'static StaticCodeLocation,
    owned: OwnedCodeLocation,
    id: TemplateId,
)
    ensures
        CodeLocation::Static(fixed)@ == fixed@,
        CodeLocation::Dynamic(Box::new(owned))@ == owned@,
        id@ == id.0@,
        fixed@.crate_path == fixed.crate_path@,
        fixed@.file_path == fixed.file_path@,
        fixed@.line == fixed.line,
        fixed@.column == fixed.column,
        owned@.crate_path == owned.crate_path@,
        owned@.file_path == owned.file_path@,
        owned@.line == owned.line,
        owned@.column == owned.column,
{
}

/// Locations are equal exactly where the paths, the lines and the columns are, between any two
/// storages.
pub proof fn law_when_locations_are_equal(
    a: CodeLocation,
    b: CodeLocation,
    fixed: StaticCodeLocation,
    other: StaticCodeLocation,
    owned: OwnedCodeLocation,
    copy: OwnedCodeLocation,
)
    ensures
        a.eq_spec(&b) <==> a@.crate_path == b@.crate_path && a@.file_path == b@.file_path && a@.line
            == b@.line && a@.column == b@.column,
        fixed.eq_spec(&other) <==> fixed.crate_path@ == other.crate_path@ && fixed.file_path@
            == other.file_path@ && fixed.line == other.line && fixed.column == other.column,
        owned.eq_spec(&copy) <==> owned.crate_path@ == copy.crate_path@ && owned.file_path@
            == copy.file_path@ && owned.line == copy.line && owned.column == copy.column,
        owned.eq_spec(&fixed) <==> owned.crate_path@ == fixed.crate_path@ && owned.file_path@
            == fixed.file_path@ && owned.line == fixed.line && owned.column == fixed.column,
{
}

/// A location is asked for what its fields hold, and made into an owned location with the same fields.
pub proof fn law_what_a_location_is_asked_for(
    location: &CodeLocation,
    line: u32,
    column: u32,
    file_path: &str,
    crate_path: &str,
    parts: (&str, &str, u32, u32),
    owned: OwnedCodeLocation,
    copy: CodeLocation,
)
    ensures
        call_ensures(CodeLocation::line, (location,), line) ==> line == match location {
            CodeLocation::Static(loc) => loc.line,
            CodeLocation::Dynamic(loc) => loc.line,
        },
        call_ensures(CodeLocation::column, (location,), column) ==> column == match location {
            CodeLocation::Static(loc) => loc.column,
            CodeLocation::Dynamic(loc) => loc.column,
        },
        call_ensures(CodeLocation::file_path, (location,), file_path) ==> file_path@
            == match location {
            CodeLocation::Static(loc) => loc.file_path@,
            CodeLocation::Dynamic(loc) => loc.file_path@,
        },
        call_ensures(CodeLocation::crate_path, (location,), crate_path) ==> crate_path@
            == match location {
            CodeLocation::Static(loc) => loc.crate_path@,
            CodeLocation::Dynamic(loc) => loc.crate_path@,
        },
        call_ensures(CodeLocation::hash_parts, (location,), parts) ==> {
            &&& parts.0@ == location@.crate_path
            &&& parts.1@ == location@.file_path
            &&& parts.2 == location@.line
            &&& parts.3 == location@.column
        },
        call_ensures(CodeLocation::to_owned, (location,), owned) ==> {
            &&& owned.crate_path@ == location@.crate_path
            &&& owned.file_path@ == location@.file_path
            &&& owned.line == location@.line
            &&& owned.column == location@.column
        },
        call_ensures(<CodeLocation as Clone>::clone, (location,), copy) ==> copy == *location,
{
}

/// Two locations compare as equal exactly where the paths, the lines and the columns are equal, and two
/// template ids exactly where their locations are.
pub proof fn law_comparing_locations(
    a: &CodeLocation,
    b: &CodeLocation,
    fixed: &StaticCodeLocation,
    other: &StaticCodeLocation,
    owned: &OwnedCodeLocation,
    copy: &OwnedCodeLocation,
    id: &TemplateId,
    other_id: &TemplateId,
    res: bool,
)
    ensures
        call_ensures(<CodeLocation as PartialEq>::eq, (a, b), res) ==> (res <==> a@.crate_path
            == b@.crate_path && a@.file_path == b@.file_path && a@.line == b@.line && a@.column
            == b@.column),
        call_ensures(<TemplateId as PartialEq>::eq, (id, other_id), res) ==> (res <==> id@.crate_path
            == other_id@.crate_path && id@.file_path == other_id@.file_path && id@.line
            == other_id@.line && id@.column == other_id@.column),
        call_ensures(<StaticCodeLocation as PartialEq>::eq, (fixed, other), res) ==> (res
            <==> fixed.crate_path@ == other.crate_path@ && fixed.file_path@ == other.file_path@
            && fixed.line == other.line && fixed.column == other.column),
        call_ensures(<OwnedCodeLocation as PartialEq>::eq, (owned, copy), res) ==> (res
            <==> owned.crate_path@ == copy.crate_path@ && owned.file_path@ == copy.file_path@
            && owned.line == copy.line && owned.column == copy.column),
        call_ensures(
            <OwnedCodeLocation as PartialEq<StaticCodeLocation>>::eq,
            (owned, fixed),
            res,
        ) ==> (res <==> owned.crate_path@ == fixed.crate_path@ && owned.file_path@
            == fixed.file_path@ && owned.line == fixed.line && owned.column == fixed.column),
{
}

/// A location that was read is one that is created at run time, with the fields that were read.
pub proof fn law_what_is_read(owned: OwnedCodeLocation, location: CodeLocation)
    requires
        call_ensures(<CodeLocation as From<OwnedCodeLocation>>::from, (owned,), location),
    ensures
        location == CodeLocation::Dynamic(Box::new(owned)),
{
}

/// A copy is what it was copied from.
pub proof fn law_copies_are_the_same(
    fixed: &StaticCodeLocation,
    owned: &OwnedCodeLocation,
    id: &TemplateId,
    fixed_copy: StaticCodeLocation,
    owned_copy: OwnedCodeLocation,
    id_copy: TemplateId,
)
    ensures
        call_ensures(<StaticCodeLocation as Clone>::clone, (fixed,), fixed_copy) ==> fixed_copy
            == *fixed,
        call_ensures(<OwnedCodeLocation as Clone>::clone, (owned,), owned_copy) ==> owned_copy
            == *owned,
        call_ensures(<TemplateId as Clone>::clone, (id,), id_copy) ==> id_copy == *id,
{
}

} // verus!
