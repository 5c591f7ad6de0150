//! Synthesis for the three behaviours that go by attribute names: the listing of
//! the names, access by name, and the export as a mapping.
//!
//! All three rest on the same table: for each arm of the declaration, the fields
//! that take part on the axis, each with the name under which it appears and its
//! position in the declaration, in the order of declaration. A record whose fields
//! have no names has no such table, and neither has an untagged union, nor a tagged
//! union with a variant that holds payloads without names and not exactly one of
//! them. A variant that is skipped has an empty table, and so has a variant
//! without named fields.
use vstd::prelude::*;
use crate::axis::Axis;
use crate::error::{ConfigError, Fault, Site};
use crate::format::{has_odd_payload, odd_payload, variant_shown};
use crate::resolve::resolve;
use crate::select::{included_fields, shown, lemma_no_fault_off_formatting, lemma_shown_upto};
use crate::shape::{arm_count, label_of, FieldSpec, TypeDecl, TypeShape, VariantFields,
    VariantSpec};
use crate::text::same;

verus! {

/// One attribute: its name, and the position of the field that holds it.
#[derive(Debug)]
pub struct Entry {
    pub name: String,
    pub position: usize,
}

/// The attributes of one arm, with the name under which the arm is reported.
#[derive(Debug)]
pub struct Listing {
    /// The type's name; for a variant, the type's name, a dot and the tag.
    pub owner: String,
    /// The attributes, in the order of declaration.
    pub entries: Vec<Entry>,
}

/// The attributes of a table as names and positions.
pub open spec fn entry_views(entries: Seq<Entry>) -> Seq<(Seq<char>, usize)> {
    Seq::new(entries.len(), |j: int| (entries[j].name@, entries[j].position))
}

/// The names of a table.
pub open spec fn entry_names(entries: Seq<Entry>) -> Seq<Seq<char>> {
    Seq::new(entries.len(), |j: int| entries[j].name@)
}

/// The fields at the given positions as names and positions.
pub open spec fn table(fields: Seq<FieldSpec>, positions: Seq<usize>) -> Seq<(Seq<char>, usize)> {
    Seq::new(
        positions.len(),
        |j: int| (label_of(fields[positions[j] as int], positions[j] as int), positions[j]),
    )
}

/// The attributes of the variant `v` on `axis`.
pub open spec fn variant_table(v: VariantSpec, axis: Axis) -> Seq<(Seq<char>, usize)> {
    match v.fields {
        VariantFields::Named(fields) => if variant_shown(v, axis) {
            table(fields@, shown(fields@, true, axis))
        } else {
            Seq::empty()
        },
        _ => Seq::empty(),
    }
}

/// The attributes of the arm at position `arm` on `axis`.
pub open spec fn arm_table(decl: TypeDecl, axis: Axis, arm: int) -> Seq<(Seq<char>, usize)> {
    match decl.shape {
        TypeShape::Record { fields } => table(fields@, shown(fields@, false, axis)),
        TypeShape::Union { variants } => variant_table(variants@[arm], axis),
        _ => Seq::empty(),
    }
}

/// The name under which the arm at position `arm` is reported.
pub open spec fn arm_owner(decl: TypeDecl, arm: int) -> Seq<char> {
    match decl.shape {
        TypeShape::Union { variants } => decl.name@ + "."@ + variants@[arm].name@,
        _ => decl.name@,
    }
}

/// The first among the first `n` variants that holds payloads without names, and
/// not exactly one of them, as a fault.
pub open spec fn payload_fault(variants: Seq<VariantSpec>, n: int) -> Option<ConfigError>
    decreases n,
{
    if n <= 0 {
        None
    } else {
        match payload_fault(variants, n - 1) {
            Some(e) => Some(e),
            None => if odd_payload(variants[n - 1]) {
                Some(
                    ConfigError {
                        fault: Fault::PayloadCount,
                        site: Site::Variant((n - 1) as usize),
                    },
                )
            } else {
                None
            },
        }
    }
}

/// A fault among the first variants is the first fault of all of them.
pub proof fn lemma_payload_fault_stays(variants: Seq<VariantSpec>, n: int, m: int)
    requires
        0 <= n <= m,
        payload_fault(variants, n) is Some,
    ensures
        payload_fault(variants, m) == payload_fault(variants, n),
    decreases m - n,
{
    if n < m {
        lemma_payload_fault_stays(variants, n, m - 1);
    }
}

/// Why a declaration has no table of attributes.
pub open spec fn listing_fault(decl: TypeDecl) -> Option<ConfigError> {
    match decl.shape {
        TypeShape::RecordTuple { .. } => Some(
            ConfigError { fault: Fault::UnnamedFields, site: Site::Type },
        ),
        TypeShape::Untagged => Some(
            ConfigError { fault: Fault::UnionUnsupported, site: Site::Type },
        ),
        TypeShape::Union { variants } => payload_fault(variants@, variants@.len() as int),
        _ => None,
    }
}

/// Whether `arms` are the tables of `decl` on `axis`.
pub open spec fn lists(decl: TypeDecl, axis: Axis, arms: Seq<Listing>) -> bool {
    &&& arms.len() == arm_count(decl.shape)
    &&& forall|a: int|
        0 <= a < arms.len() ==> {
            &&& (#[trigger] arms[a]).owner@ == arm_owner(decl, a)
            &&& entry_views(arms[a].entries@) == arm_table(decl, axis, a)
        }
}

/// The position of the first among the first `n` names that equals `attr`.
pub open spec fn first_match(names: Seq<Seq<char>>, attr: Seq<char>, n: int) -> Option<int>
    decreases n,
{
    if n <= 0 {
        None
    } else {
        match first_match(names, attr, n - 1) {
            Some(j) => Some(j),
            None => if names[n - 1] == attr {
                Some(n - 1)
            } else {
                None
            },
        }
    }
}

/// A match among the first names is the first match among all of them.
pub proof fn lemma_first_match_stays(names: Seq<Seq<char>>, attr: Seq<char>, n: int, m: int)
    requires
        0 <= n <= m,
        first_match(names, attr, n) is Some,
    ensures
        first_match(names, attr, m) == first_match(names, attr, n),
    decreases m - n,
{
    if n < m {
        lemma_first_match_stays(names, attr, n, m - 1);
    }
}

/// No match means that no name equals `attr`, and a match is a position with that
/// name before which no name equals `attr`.
pub proof fn lemma_first_match(names: Seq<Seq<char>>, attr: Seq<char>, n: int)
    requires
        0 <= n <= names.len(),
    ensures
        match first_match(names, attr, n) {
            Some(j) => 0 <= j < n && names[j] == attr && forall|k: int|
                0 <= k < j ==> names[k] != attr,
            None => forall|k: int| 0 <= k < n ==> names[k] != attr,
        },
    decreases n,
{
    if n > 0 {
        lemma_first_match(names, attr, n - 1);
    }
}

/// The table of the fields at the given positions.
fn entries_of(fields: &Vec<FieldSpec>, ids: &Vec<usize>) -> (entries: Vec<Entry>)
    requires
        forall|j: int| 0 <= j < ids@.len() ==> (#[trigger] ids@[j]) < fields@.len(),
    ensures
        entry_views(entries@) == table(fields@, ids@),
{
    let mut entries: Vec<Entry> = Vec::new();
    let mut j: usize = 0;
    while j < ids.len()
        invariant
            j <= ids.len(),
            forall|j: int| 0 <= j < ids@.len() ==> (#[trigger] ids@[j]) < fields@.len(),
            entries@.len() == j,
            forall|k: int|
                0 <= k < j ==> (#[trigger] entries@[k]).name@ == label_of(
                    fields@[ids@[k] as int],
                    ids@[k] as int,
                ) && entries@[k].position == ids@[k],
        decreases ids.len() - j,
    {
        let position = ids[j];
        entries.push(Entry { name: fields[position].label(position), position });
        j += 1;
    }
    assert(entry_views(entries@) =~= table(fields@, ids@));
    entries
}

/// The type's name, a dot and a tag.
fn dotted(name: &str, tag: &str) -> (s: String)
    ensures
        s@ == name@ + "."@ + tag@,
{
    let mut s = name.to_owned();
    s.append(".");
    s.append(tag);
    s
}

/// The tables of a declaration on one of the three axes that go by names.
pub(crate) fn listings(decl: &TypeDecl, axis: Axis) -> (r: Result<Vec<Listing>, ConfigError>)
    requires
        !axis.is_formatting(),
    ensures
        match r {
            Ok(arms) => listing_fault(*decl) is None && lists(*decl, axis, arms@),
            Err(e) => listing_fault(*decl) == Some(e),
        },
{
    match &decl.shape {
        TypeShape::Record { fields } => {
            let ids = included_fields(fields, axis, false);
            proof {
                assert(fields.len() <= usize::MAX);
                lemma_shown_upto(fields@, false, axis, fields@.len() as int);
            }
            let mut arms: Vec<Listing> = Vec::new();
            arms.push(Listing { owner: decl.name.clone(), entries: entries_of(fields, &ids) });
            Ok(arms)
        },
        TypeShape::RecordUnit => {
            let mut arms: Vec<Listing> = Vec::new();
            let entries: Vec<Entry> = Vec::new();
            assert(entry_views(entries@) =~= Seq::empty());
            arms.push(Listing { owner: decl.name.clone(), entries });
            Ok(arms)
        },
        TypeShape::RecordTuple { .. } => Err(
            ConfigError { fault: Fault::UnnamedFields, site: Site::Type },
        ),
        TypeShape::Untagged => Err(
            ConfigError { fault: Fault::UnionUnsupported, site: Site::Type },
        ),
        TypeShape::Union { variants } => {
            let mut arms: Vec<Listing> = Vec::new();
            let mut i: usize = 0;
            while i < variants.len()
                invariant
                    i <= variants.len(),
                    !axis.is_formatting(),
                    decl.shape == (TypeShape::Union { variants: *variants }),
                    payload_fault(variants@, i as int) is None,
                    arms@.len() == i,
                    forall|a: int|
                        0 <= a < i ==> {
                            &&& (#[trigger] arms@[a]).owner@ == arm_owner(*decl, a)
                            &&& entry_views(arms@[a].entries@) == arm_table(*decl, axis, a)
                        },
                decreases variants.len() - i,
            {
                let v = &variants[i];
                if has_odd_payload(v) {
                    proof {
                        lemma_payload_fault_stays(variants@, i + 1, variants@.len() as int);
                    }
                    return Err(
                        ConfigError { fault: Fault::PayloadCount, site: Site::Variant(i) },
                    );
                }
                proof {
                    lemma_no_fault_off_formatting(
                        v.annotations@,
                        axis,
                        v.annotations@.len() as int,
                    );
                }
                let included = match resolve(&v.annotations, true, axis) {
                    Ok(d) => d.included,
                    Err(_) => false,
                };
                let entries = match &v.fields {
                    VariantFields::Named(fields) => {
                        if included {
                            let ids = included_fields(fields, axis, true);
                            proof {
                                assert(fields.len() <= usize::MAX);
                                lemma_shown_upto(fields@, true, axis, fields@.len() as int);
                            }
                            entries_of(fields, &ids)
                        } else {
                            let none: Vec<Entry> = Vec::new();
                            assert(entry_views(none@) =~= Seq::empty());
                            none
                        }
                    },
                    _ => {
                        let none: Vec<Entry> = Vec::new();
                        assert(entry_views(none@) =~= Seq::empty());
                        none
                    },
                };
                arms.push(
                    Listing { owner: dotted(decl.name.as_str(), v.name.as_str()), entries },
                );
                i += 1;
            }
            Ok(arms)
        },
    }
}

/// The tags of the first `n` variants that take part in the listing of names.
pub open spec fn listed_variants(variants: Seq<VariantSpec>, n: int) -> Seq<Seq<char>>
    decreases n,
{
    if n <= 0 {
        Seq::empty()
    } else if variant_shown(variants[n - 1], Axis::Directory) {
        listed_variants(variants, n - 1).push(variants[n - 1].name@)
    } else {
        listed_variants(variants, n - 1)
    }
}

/// The tags of the variants that take part in the listing of attribute names, in
/// the order of declaration.
pub fn get_dir_enum_variants(variants: &Vec<VariantSpec>) -> (tags: Vec<String>)
    ensures
        crate::text::texts(tags@) == listed_variants(variants@, variants@.len() as int),
{
    let mut tags: Vec<String> = Vec::new();
    let mut i: usize = 0;
    while i < variants.len()
        invariant
            i <= variants.len(),
            crate::text::texts(tags@) == listed_variants(variants@, i as int),
        decreases variants.len() - i,
    {
        let v = &variants[i];
        proof {
            lemma_no_fault_off_formatting(
                v.annotations@,
                Axis::Directory,
                v.annotations@.len() as int,
            );
        }
        let included = match resolve(&v.annotations, true, Axis::Directory) {
            Ok(d) => d.included,
            Err(_) => false,
        };
        if included {
            let ghost before = crate::text::texts(tags@);
            tags.push(v.name.clone());
            assert(crate::text::texts(tags@) =~= before.push(v.name@));
        }
        i += 1;
    }
    tags
}

impl Listing {
    /// The names of the attributes, in the order of declaration.
    pub fn names(&self) -> (out: Vec<String>)
        ensures
            crate::text::texts(out@) == entry_names(self.entries@),
    {
        let mut out: Vec<String> = Vec::new();
        let mut j: usize = 0;
        while j < self.entries.len()
            invariant
                j <= self.entries.len(),
                out@.len() == j,
                forall|k: int| 0 <= k < j ==> (#[trigger] out@[k])@ == self.entries@[k].name@,
            decreases self.entries.len() - j,
        {
            out.push(self.entries[j].name.clone());
            j += 1;
        }
        assert(crate::text::texts(out@) =~= entry_names(self.entries@));
        out
    }

    /// The position of the field that holds the attribute `attr`: that of the first
    /// entry with this name, if there is one.
    pub fn find(&self, attr: &str) -> (r: Option<usize>)
        ensures
            match first_match(entry_names(self.entries@), attr@, self.entries@.len() as int) {
                Some(j) => r == Some(self.entries@[j].position),
                None => r is None,
            },
    {
        let mut j: usize = 0;
        while j < self.entries.len()
            invariant
                j <= self.entries.len(),
                first_match(entry_names(self.entries@), attr@, j as int) is None,
            decreases self.entries.len() - j,
        {
            if same(self.entries[j].name.as_str(), attr) {
                proof {
                    lemma_first_match_stays(
                        entry_names(self.entries@),
                        attr@,
                        j + 1,
                        self.entries@.len() as int,
                    );
                }
                return Some(self.entries[j].position);
            }
            j += 1;
        }
        None
    }
}

} // verus!
