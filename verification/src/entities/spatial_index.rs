//! Spatial index of entities by height: the world's 128 block rows split
//! into eight sections of sixteen.

use vstd::prelude::*;

verus! {

broadcast use vstd::seq_lib::group_seq_properties;

/// Number of height sections.
pub const SECTION_COUNT: usize = 8;

/// Height of a section, in blocks.
pub const SECTION_HEIGHT: i32 = 16;

/// The section that holds block row `y`: rows below zero go to the lowest
/// section and rows above the world to the highest.
pub open spec fn section_of(y: int) -> int {
    if y < 0 {
        0
    } else if y / 16 > 7 {
        7
    } else {
        y / 16
    }
}

/// An entity added at a block row is the last of that row's section, and
/// the index holds one more entity than before; the other sections are as
/// they were.
pub proof fn law_added_entity_is_listed<E>(
    before: Seq<Seq<E>>,
    after: Seq<Seq<E>>,
    entity: E,
    block_y: int,
    other_section: int,
)
    requires
        before.len() == 8,
        after == before.update(section_of(block_y), before[section_of(block_y)].push(entity)),
        0 <= other_section < 8,
    ensures
        after[section_of(block_y)].last() == entity,
        after[section_of(block_y)].len() == before[section_of(block_y)].len() + 1,
        other_section != section_of(block_y) ==> after[other_section] == before[other_section],
        0 <= section_of(block_y) < 8,
        after.len() == 8,
        after.flatten().len() == before.flatten().len() + 1,
{
    lemma_flatten_update_push(before, section_of(block_y), entity);
}

/// Flattening sequences that are all empty gives an empty sequence.
proof fn lemma_flatten_of_empties<E>(s: Seq<Seq<E>>)
    requires
        forall|i: int| 0 <= i < s.len() ==> (#[trigger] s[i]).len() == 0,
    ensures
        s.flatten().len() == 0,
    decreases s.len(),
{
    if s.len() > 0 {
        assert(s.first().len() == 0);
        lemma_flatten_of_empties(s.drop_first());
    }
}

/// Appending to one inner sequence lengthens the flattened sequence by one.
proof fn lemma_flatten_update_push<E>(s: Seq<Seq<E>>, i: int, e: E)
    requires
        0 <= i < s.len(),
    ensures
        s.update(i, s[i].push(e)).flatten().len() == s.flatten().len() + 1,
    decreases s.len(),
{
    let t = s.update(i, s[i].push(e));
    if i == 0 {
        assert(t.drop_first() =~= s.drop_first());
        assert(t.first() == s.first().push(e));
    } else {
        lemma_flatten_update_push(s.drop_first(), i - 1, e);
        assert(t.drop_first() =~= s.drop_first().update(i - 1, s.drop_first()[i - 1].push(e)));
    }
}

/// Entities partitioned by height section.
pub struct SpatialIndex<E> {
    sections: Vec<Vec<E>>,
}

impl<E> SpatialIndex<E> {
    /// The entities of each section, lowest section first.
    pub closed spec fn spec_sections(&self) -> Seq<Seq<E>> {
        self.sections@.map_values(|v: Vec<E>| v@)
    }

    /// The index holds one list per section.
    pub closed spec fn wf(&self) -> bool {
        self.sections@.len() == SECTION_COUNT
    }

    /// A well-formed index has eight sections.
    pub proof fn lemma_eight_sections(&self)
        requires
            self.wf(),
        ensures
            self.spec_sections().len() == 8,
    {
    }

    /// Creates an index with every section empty.
    pub fn new() -> (r: Self)
        ensures
            r.wf(),
            r.spec_sections() == Seq::new(8, |i: int| Seq::<E>::empty()),
            r.spec_sections().flatten().len() == 0,
    {
        let mut sections: Vec<Vec<E>> = Vec::new();
        let mut i: usize = 0;
        while i < SECTION_COUNT
            invariant
                i <= SECTION_COUNT,
                sections@.len() == i,
                forall|j: int| 0 <= j < i ==> (#[trigger] sections@[j])@.len() == 0,
            decreases SECTION_COUNT - i,
        {
            sections.push(Vec::new());
            i = i + 1;
        }
        let r = SpatialIndex { sections };
        assert(r.spec_sections() =~= Seq::new(8, |i: int| Seq::<E>::empty()));
        proof {
            lemma_flatten_of_empties(r.spec_sections());
        }
        r
    }

    /// The section that holds block row `y`.
    fn section_index(y: i32) -> (s: usize)
        ensures
            s == section_of(y as int),
            s < SECTION_COUNT,
    {
        let q = y / SECTION_HEIGHT;
        if y < 0 {
            0
        } else if q > 7 {
            7
        } else {
            q as usize
        }
    }
}

impl<E: Copy> SpatialIndex<E> {
    /// Adds a copy of `entity`, standing at block row `block_y`, to the end of
    /// its section; the other sections are unchanged.
    pub fn add_entity(&mut self, entity: &E, block_y: i32)
        requires
            old(self).wf(),
        ensures
            final(self).wf(),
            final(self).spec_sections() == old(self).spec_sections().update(
                section_of(block_y as int),
                old(self).spec_sections()[section_of(block_y as int)].push(*entity),
            ),
    {
        let s = Self::section_index(block_y);
        self.sections[s].push(*entity);
        assert(self.spec_sections() =~= old(self).spec_sections().update(
            section_of(block_y as int),
            old(self).spec_sections()[section_of(block_y as int)].push(*entity),
        ));
    }
}

impl<E> SpatialIndex<E> {
    /// The entities of the section that holds block row `y`, in the order
    /// they were added.
    pub fn get_entities_in_section(&self, y: i32) -> (r: &[E])
        requires
            self.wf(),
        ensures
            r@ == self.spec_sections()[section_of(y as int)],
    {
        let s = Self::section_index(y);
        self.sections[s].as_slice()
    }

    /// Every entity, section by section from the lowest, each section in the
    /// order its entities were added.
    pub fn get_all_entities(&self) -> (r: Vec<&E>)
        requires
            self.wf(),
        ensures
            self.spec_sections().len() == 8,
            r@.len() == self.spec_sections().flatten().len(),
            forall|i: int| 0 <= i < r@.len() ==> *r@[i] == self.spec_sections().flatten()[i],
    {
        let ghost sections = self.spec_sections();
        let mut all: Vec<&E> = Vec::new();
        let mut s: usize = 0;
        while s < self.sections.len()
            invariant
                self.wf(),
                sections == self.spec_sections(),
                s <= self.sections@.len(),
                all@.len() == sections.take(s as int).flatten().len(),
                forall|i: int| 0 <= i < all@.len() ==> *all@[i] == sections.take(s as int).flatten()[i],
            decreases self.sections@.len() - s,
        {
            let section = &self.sections[s];
            let ghost before = sections.take(s as int).flatten();
            assert(section@ == sections[s as int]);
            let mut k: usize = 0;
            while k < section.len()
                invariant
                    k <= section@.len(),
                    all@.len() == before.len() + k,
                    forall|i: int| 0 <= i < before.len() ==> *all@[i] == before[i],
                    forall|i: int| 0 <= i < k ==> *all@[before.len() + i] == section@[i],
                decreases section@.len() - k,
            {
                all.push(&section[k]);
                k = k + 1;
            }
            proof {
                assert(sections.take(s as int + 1) =~= sections.take(s as int).push(sections[s as int]));
                sections.take(s as int).lemma_flatten_push(sections[s as int]);
            }
            s = s + 1;
        }
        proof {
            assert(sections.take(s as int) =~= sections);
        }
        all
    }
}

impl<E> Default for SpatialIndex<E> {
    fn default() -> (r: Self)
        ensures
            r.wf(),
            r.spec_sections() == Seq::new(8, |i: int| Seq::<E>::empty()),
    {
        SpatialIndex::new()
    }
}

} // verus!
