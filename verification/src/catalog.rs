//! The catalog: twenty-seven kinds of essence, each a vector with axes of
//! -1, 0 or 1 and a name, in the fixed order of priority.
//!
//! The eight kinds that touch three axes come first, then the twelve that
//! touch two, then the six that touch one, then the unaligned kind, which
//! touches none.

use vstd::prelude::*;
use crate::essence::{Essence, EssenceVector};
use crate::text::{chars_of, normal_form, normalize, range_is};
use vstd::string::StringExecFns;

verus! {

/// The number of kinds in the catalog.
pub const KINDS: usize = 27;

/// The vector with the given axes.
pub open spec fn vector(yin_yang: int, water_fire: int, earth_air: int) -> EssenceVector {
    EssenceVector { yin_yang, water_fire, earth_air }
}

/// The vector of the kind at place `i` of the order of priority.
pub open spec fn kind(i: int) -> EssenceVector {
    if i == 0 {
        vector(1, 1, 1)
    } else if i == 1 {
        vector(1, -1, 1)
    } else if i == 2 {
        vector(1, -1, -1)
    } else if i == 3 {
        vector(1, 1, -1)
    } else if i == 4 {
        vector(-1, 1, 1)
    } else if i == 5 {
        vector(-1, -1, -1)
    } else if i == 6 {
        vector(-1, -1, 1)
    } else if i == 7 {
        vector(-1, 1, -1)
    } else if i == 8 {
        vector(1, 1, 0)
    } else if i == 9 {
        vector(1, 0, 1)
    } else if i == 10 {
        vector(1, -1, 0)
    } else if i == 11 {
        vector(1, 0, -1)
    } else if i == 12 {
        vector(0, 1, 1)
    } else if i == 13 {
        vector(0, -1, 1)
    } else if i == 14 {
        vector(0, -1, -1)
    } else if i == 15 {
        vector(0, 1, -1)
    } else if i == 16 {
        vector(-1, 1, 0)
    } else if i == 17 {
        vector(-1, -1, 0)
    } else if i == 18 {
        vector(-1, 0, 1)
    } else if i == 19 {
        vector(-1, 0, -1)
    } else if i == 20 {
        vector(-1, 0, 0)
    } else if i == 21 {
        vector(1, 0, 0)
    } else if i == 22 {
        vector(0, -1, 0)
    } else if i == 23 {
        vector(0, 1, 0)
    } else if i == 24 {
        vector(0, 0, -1)
    } else if i == 25 {
        vector(0, 0, 1)
    } else {
        vector(0, 0, 0)
    }
}

/// The primary name of the kind at place `i` of the order of priority. A
/// name may list several synonyms, parted by `/`.
pub open spec fn kind_name(i: int) -> Seq<char> {
    if i == 0 {
        "lightning"@
    } else if i == 1 {
        "cloud/mist"@
    } else if i == 2 {
        "wood/life"@
    } else if i == 3 {
        "metal"@
    } else if i == 4 {
        "destruction/death"@
    } else if i == 5 {
        "acid/corrosion"@
    } else if i == 6 {
        "miasma"@
    } else if i == 7 {
        "force"@
    } else if i == 8 {
        "sun/light"@
    } else if i == 9 {
        "sky"@
    } else if i == 10 {
        "purity/healing"@
    } else if i == 11 {
        "gravity"@
    } else if i == 12 {
        "heat"@
    } else if i == 13 {
        "ice"@
    } else if i == 14 {
        "mud"@
    } else if i == 15 {
        "magma"@
    } else if i == 16 {
        "plasma"@
    } else if i == 17 {
        "abyss/darkness/moon"@
    } else if i == 18 {
        "vacuum/void"@
    } else if i == 19 {
        "stone"@
    } else if i == 20 {
        "yin"@
    } else if i == 21 {
        "yang"@
    } else if i == 22 {
        "water"@
    } else if i == 23 {
        "fire"@
    } else if i == 24 {
        "earth"@
    } else if i == 25 {
        "air"@
    } else {
        "unaligned"@
    }
}

/// The place in the order of priority of the kind in whose direction `v`
/// points.
pub open spec fn kind_index(v: EssenceVector) -> int {
    let s = v.signum();
    if s == vector(1, 1, 1) {
        0
    } else if s == vector(1, -1, 1) {
        1
    } else if s == vector(1, -1, -1) {
        2
    } else if s == vector(1, 1, -1) {
        3
    } else if s == vector(-1, 1, 1) {
        4
    } else if s == vector(-1, -1, -1) {
        5
    } else if s == vector(-1, -1, 1) {
        6
    } else if s == vector(-1, 1, -1) {
        7
    } else if s == vector(1, 1, 0) {
        8
    } else if s == vector(1, 0, 1) {
        9
    } else if s == vector(1, -1, 0) {
        10
    } else if s == vector(1, 0, -1) {
        11
    } else if s == vector(0, 1, 1) {
        12
    } else if s == vector(0, -1, 1) {
        13
    } else if s == vector(0, -1, -1) {
        14
    } else if s == vector(0, 1, -1) {
        15
    } else if s == vector(-1, 1, 0) {
        16
    } else if s == vector(-1, -1, 0) {
        17
    } else if s == vector(-1, 0, 1) {
        18
    } else if s == vector(-1, 0, -1) {
        19
    } else if s == vector(-1, 0, 0) {
        20
    } else if s == vector(1, 0, 0) {
        21
    } else if s == vector(0, -1, 0) {
        22
    } else if s == vector(0, 1, 0) {
        23
    } else if s == vector(0, 0, -1) {
        24
    } else if s == vector(0, 0, 1) {
        25
    } else {
        26
    }
}

/// Every vector points in the direction of exactly one kind: the one whose
/// vector holds the signs of its axes.
pub proof fn lemma_kind_index(v: EssenceVector)
    ensures
        0 <= kind_index(v) < KINDS,
        kind(kind_index(v)) == v.signum(),
        forall|i: int| 0 <= i < KINDS ==> (v.same_direction(#[trigger] kind(i)) <==> i == kind_index(v)),
{
}

/// The kind at place `i` of the order of priority.
pub fn kind_at(i: usize) -> (e: Essence)
    requires
        i < KINDS,
    ensures
        e@ == kind(i as int),
{
    match i {
        0 => Essence::new(1, 1, 1),
        1 => Essence::new(1, -1, 1),
        2 => Essence::new(1, -1, -1),
        3 => Essence::new(1, 1, -1),
        4 => Essence::new(-1, 1, 1),
        5 => Essence::new(-1, -1, -1),
        6 => Essence::new(-1, -1, 1),
        7 => Essence::new(-1, 1, -1),
        8 => Essence::new(1, 1, 0),
        9 => Essence::new(1, 0, 1),
        10 => Essence::new(1, -1, 0),
        11 => Essence::new(1, 0, -1),
        12 => Essence::new(0, 1, 1),
        13 => Essence::new(0, -1, 1),
        14 => Essence::new(0, -1, -1),
        15 => Essence::new(0, 1, -1),
        16 => Essence::new(-1, 1, 0),
        17 => Essence::new(-1, -1, 0),
        18 => Essence::new(-1, 0, 1),
        19 => Essence::new(-1, 0, -1),
        20 => Essence::new(-1, 0, 0),
        21 => Essence::new(1, 0, 0),
        22 => Essence::new(0, -1, 0),
        23 => Essence::new(0, 1, 0),
        24 => Essence::new(0, 0, -1),
        25 => Essence::new(0, 0, 1),
        _ => Essence::new(0, 0, 0),
    }
}

/// The kinds of the catalog in their order of priority.
pub fn essence_order() -> (order: [Essence; 27])
    ensures
        forall|i: int| 0 <= i < KINDS ==> (#[trigger] order@[i])@ == kind(i),
{
    [
        kind_at(0),
        kind_at(1),
        kind_at(2),
        kind_at(3),
        kind_at(4),
        kind_at(5),
        kind_at(6),
        kind_at(7),
        kind_at(8),
        kind_at(9),
        kind_at(10),
        kind_at(11),
        kind_at(12),
        kind_at(13),
        kind_at(14),
        kind_at(15),
        kind_at(16),
        kind_at(17),
        kind_at(18),
        kind_at(19),
        kind_at(20),
        kind_at(21),
        kind_at(22),
        kind_at(23),
        kind_at(24),
        kind_at(25),
        kind_at(26),
    ]
}

/// The primary name of the kind at place `i` of the order of priority.
pub fn name_at(i: usize) -> (name: &'static str)
    requires
        i < KINDS,
    ensures
        name@ == kind_name(i as int),
{
    match i {
        0 => "lightning",
        1 => "cloud/mist",
        2 => "wood/life",
        3 => "metal",
        4 => "destruction/death",
        5 => "acid/corrosion",
        6 => "miasma",
        7 => "force",
        8 => "sun/light",
        9 => "sky",
        10 => "purity/healing",
        11 => "gravity",
        12 => "heat",
        13 => "ice",
        14 => "mud",
        15 => "magma",
        16 => "plasma",
        17 => "abyss/darkness/moon",
        18 => "vacuum/void",
        19 => "stone",
        20 => "yin",
        21 => "yang",
        22 => "water",
        23 => "fire",
        24 => "earth",
        25 => "air",
        _ => "unaligned",
    }
}

/// Whether one of the parts into which `/` divides `name` is `key`, for
/// the parts from the one that starts at `start`; `at` is the place up to
/// which that part has been read.
pub open spec fn has_part(name: Seq<char>, key: Seq<char>, start: int, at: int) -> bool
    decreases name.len() - at,
{
    if at < 0 || at >= name.len() {
        name.subrange(start, name.len() as int) == key
    } else if name[at] == '/' {
        name.subrange(start, at) == key || has_part(name, key, at + 1, at + 1)
    } else {
        has_part(name, key, start, at + 1)
    }
}

/// Whether the kind with the primary name `name` answers to `key`: the
/// key is the whole name or one of the synonyms that the name lists.
pub open spec fn answers_to(name: Seq<char>, key: Seq<char>) -> bool {
    key == name || has_part(name, key, 0, 0)
}

/// The first place at or after `from` of a kind that answers to `key`, or
/// the number of kinds where there is none.
pub open spec fn find_name(key: Seq<char>, from: int) -> int
    decreases KINDS - from,
{
    if from < 0 || from >= KINDS {
        KINDS as int
    } else if answers_to(kind_name(from), key) {
        from
    } else {
        find_name(key, from + 1)
    }
}

/// The vector of the kind that the text names, if it names one: the text
/// in its normal form is the primary name of the kind or one of its
/// synonyms.
pub open spec fn lookup(text: Seq<char>) -> Option<EssenceVector> {
    let i = find_name(normal_form(text), 0);
    if i < KINDS {
        Some(kind(i))
    } else {
        None
    }
}

/// The primary name of `v` where it is the vector of a kind.
pub open spec fn exact_name(v: EssenceVector) -> Option<Seq<char>> {
    if v == v.signum() {
        Some(kind_name(kind_index(v)))
    } else {
        None
    }
}

/// Whether the kind with the primary name `name` answers to `key`.
pub fn name_answers_to(name: &[char], key: &[char]) -> (b: bool)
    ensures
        b == answers_to(name@, key@),
{
    if range_is(name, 0, name.len(), key) {
        assert(name@.subrange(0, name@.len() as int) == name@);
        return true;
    }
    assert(name@.subrange(0, name@.len() as int) == name@);
    let mut start: usize = 0;
    let mut at: usize = 0;
    while at < name.len()
        invariant
            start <= at <= name.len(),
            has_part(name@, key@, 0, 0) == has_part(name@, key@, start as int, at as int),
        decreases name.len() - at,
    {
        if name[at] == '/' {
            if range_is(name, start, at, key) {
                return true;
            }
            start = at + 1;
        }
        at += 1;
    }
    range_is(name, start, name.len(), key)
}

/// The place in the order of priority of the first kind that answers to
/// `key`, or the number of kinds where none does.
pub fn find_kind(key: &[char]) -> (i: usize)
    ensures
        i == find_name(key@, 0),
        i <= KINDS,
{
    let mut i: usize = 0;
    while i < KINDS
        invariant
            i <= KINDS,
            find_name(key@, 0) == find_name(key@, i as int),
        decreases KINDS - i,
    {
        let name = chars_of(name_at(i));
        if name_answers_to(name.as_slice(), key) {
            return i;
        }
        i += 1;
    }
    i
}

impl Essence {
    /// The place in the order of priority of the first kind that points
    /// the same way as the essence.
    pub fn kind_place(&self) -> (i: usize)
        ensures
            i == kind_index(self@),
            i < KINDS,
    {
        proof {
            lemma_kind_index(self@);
        }
        let mut i: usize = 0;
        while i < KINDS - 1 && !self.contains(&kind_at(i))
            invariant
                i <= kind_index(self@) < KINDS,
                forall|j: int|
                    0 <= j < KINDS ==> (self@.same_direction(#[trigger] kind(j)) <==> j
                        == kind_index(self@)),
            decreases KINDS - i,
        {
            i += 1;
        }
        i
    }

    /// Turns the essence into the name of its kind, all ratios ignored:
    /// the primary name of the first kind in the order of priority that
    /// points the same way.
    pub fn to_string_simple(&self) -> (s: String)
        ensures
            s@ == kind_name(kind_index(self@)),
    {
        String::from_str(name_at(self.kind_place()))
    }

    /// Takes a name such as `lightning` and returns the essence of that
    /// kind. Case and the white space around the name do not count; a
    /// name that lists synonyms answers to each of them and to the whole.
    pub fn from_string_simple(x: String) -> (r: Option<Self>)
        ensures
            r is Some <==> lookup(x@) is Some,
            r is Some ==> r->0@ == lookup(x@)->0,
    {
        let chars = chars_of(x.as_str());
        let key = normalize(chars.as_slice());
        let i = find_kind(key.as_slice());
        if i < KINDS {
            Some(kind_at(i))
        } else {
            None
        }
    }

    /// The primary name of the essence where it is exactly one of the
    /// kinds of the catalog, and `None` for any other essence.
    pub fn primary_name(&self) -> (r: Option<&'static str>)
        ensures
            r is Some <==> exact_name(self@) is Some,
            r is Some ==> r->0@ == exact_name(self@)->0,
    {
        let i = self.kind_place();
        let unit = kind_at(i);
        proof {
            lemma_kind_index(self@);
            Essence::lemma_view_injective(*self, unit);
        }
        if *self == unit {
            Some(name_at(i))
        } else {
            None
        }
    }
}

} // verus!
