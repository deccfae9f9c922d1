//! Inclusion ranges over message ordinals: validation and the streaming
//! classifier that decides, message by message, whether the current ordinal
//! lies inside one of the ranges.

use vstd::prelude::*;

verus! {

/// A closed interval `[first_line, last_line]` of message ordinals
/// (0-based, inclusive on both ends).
#[derive(Clone, Copy, Debug, PartialEq, Eq, Structural)]
pub struct IndexSection {
    pub first_line: usize,
    pub last_line: usize,
}

/// A single section is well formed when its bounds are not reversed.
pub open spec fn section_ok(s: IndexSection) -> bool {
    s.first_line <= s.last_line
}

/// Adjacent sections neither touch nor cross: each section ends strictly
/// before the next one begins.
pub open spec fn sections_sorted(ss: Seq<IndexSection>) -> bool {
    forall|j: int|
        0 <= j && j + 1 < ss.len() ==> (#[trigger] ss[j]).last_line < ss[j + 1].first_line
}

/// A section list is valid when every section is well formed and the list is
/// sorted with no overlap. The empty list is valid.
pub open spec fn sections_valid_spec(ss: Seq<IndexSection>) -> bool {
    &&& forall|j: int| 0 <= j < ss.len() ==> section_ok(#[trigger] ss[j])
    &&& sections_sorted(ss)
}

/// Whether ordinal `i` lies inside section `s`.
pub open spec fn section_contains(s: IndexSection, i: int) -> bool {
    s.first_line <= i <= s.last_line
}

/// Whether ordinal `i` lies inside some section of the list.
pub open spec fn in_sections(ss: Seq<IndexSection>, i: int) -> bool {
    exists|j: int| 0 <= j < ss.len() && section_contains(#[trigger] ss[j], i)
}

/// In a valid list, every earlier section ends strictly before any later
/// section begins, not only the adjacent ones.
pub proof fn lemma_sections_ordered(ss: Seq<IndexSection>, j: int, k: int)
    requires
        sections_valid_spec(ss),
        0 <= j < k < ss.len(),
    ensures
        ss[j].last_line < ss[k].first_line,
    decreases k - j,
{
    if k > j + 1 {
        lemma_sections_ordered(ss, j, k - 1);
        assert(section_ok(ss[k - 1]));
        assert(ss[k - 1].last_line < ss[k].first_line);
    }
}

/// Decides validity of a candidate section list, exactly as
/// [`sections_valid_spec`] states it.
pub fn sections_valid(sections: &Vec<IndexSection>) -> (r: bool)
    ensures
        r == sections_valid_spec(sections@),
{
    let n = sections.len();
    let mut i: usize = 0;
    while n > 1 && i < n - 1
        invariant
            n == sections@.len(),
            i <= n,
            forall|j: int|
                0 <= j < i ==> (#[trigger] sections@[j]).last_line < sections@[j + 1].first_line,
        decreases n - i,
    {
        if sections[i].last_line >= sections[i + 1].first_line {
            assert(!sections_sorted(sections@));
            return false;
        }
        i += 1;
    }
    let mut k: usize = 0;
    while k < n
        invariant
            n == sections@.len(),
            k <= n,
            sections_sorted(sections@),
            forall|j: int| 0 <= j < k ==> section_ok(#[trigger] sections@[j]),
        decreases n - k,
    {
        if sections[k].first_line > sections[k].last_line {
            assert(!section_ok(sections@[k as int]));
            return false;
        }
        k += 1;
    }
    true
}

/// A list with a reversed section is rejected, regardless of the other
/// elements.
pub proof fn lemma_reversed_section_rejected(ss: Seq<IndexSection>, j: int)
    requires
        0 <= j < ss.len(),
        ss[j].first_line > ss[j].last_line,
    ensures
        !sections_valid_spec(ss),
{
}

/// Two sections where the earlier one ends at or after the start of the one
/// following it are rejected, regardless of the other elements.
pub proof fn lemma_overlapping_sections_rejected(ss: Seq<IndexSection>, j: int)
    requires
        0 <= j,
        j + 1 < ss.len(),
        ss[j].last_line >= ss[j + 1].first_line,
    ensures
        !sections_valid_spec(ss),
{
}

/// Sections that touch without overlapping (each one ending exactly one
/// ordinal before the next begins, or earlier) are accepted, provided no
/// section is reversed.
pub proof fn lemma_touching_sections_accepted(ss: Seq<IndexSection>)
    requires
        forall|j: int| 0 <= j < ss.len() ==> section_ok(#[trigger] ss[j]),
        forall|j: int|
            0 <= j && j + 1 < ss.len() ==> (#[trigger] ss[j]).last_line + 1 <= ss[j + 1].first_line,
    ensures
        sections_valid_spec(ss),
{
}

/// Streaming classifier over a validated section list: reports whether the
/// current message ordinal lies inside one of the sections, in O(1) per
/// message, and never rewinds.
pub struct SectionTracker {
    current_index: usize,
    section_index: usize,
    sections: Vec<IndexSection>,
    inside: bool,
}

impl SectionTracker {
    /// The section list this tracker classifies against.
    pub closed spec fn sections_spec(&self) -> Seq<IndexSection> {
        self.sections@
    }

    /// The ordinal the tracker currently stands on.
    pub closed spec fn index_spec(&self) -> int {
        self.current_index as int
    }

    /// The current classification flag.
    pub closed spec fn inside_spec(&self) -> bool {
        self.inside
    }

    /// Internal well-formedness: the section cursor has passed exactly the
    /// sections that end before the current ordinal, and the flag mirrors
    /// whether the active section has begun.
    pub closed spec fn wf(&self) -> bool {
        &&& sections_valid_spec(self.sections@)
        &&& self.section_index <= self.sections@.len()
        &&& forall|j: int|
            0 <= j < self.section_index ==> (#[trigger] self.sections@[j]).last_line
                < self.current_index
        &&& (self.section_index < self.sections@.len() ==> self.current_index
            <= self.sections@[self.section_index as int].last_line)
        &&& self.inside == (self.section_index < self.sections@.len()
            && self.sections@[self.section_index as int].first_line <= self.current_index)
    }

    /// The flag classifies the current ordinal exactly: it is set iff the
    /// ordinal falls within some section of the list.
    proof fn lemma_classifies(&self)
        requires
            self.wf(),
        ensures
            self.inside == in_sections(self.sections@, self.current_index as int),
    {
        let ss = self.sections@;
        let cur = self.current_index as int;
        if self.inside {
            assert(section_contains(ss[self.section_index as int], cur));
        } else {
            assert forall|j: int| 0 <= j < ss.len() implies !section_contains(
                #[trigger] ss[j],
                cur,
            ) by {
                if j >= self.section_index && self.section_index < ss.len() {
                    if j > self.section_index {
                        lemma_sections_ordered(ss, self.section_index as int, j);
                    }
                }
            }
        }
    }

    /// Builds a tracker standing on ordinal 0 over a validated section list.
    pub fn new(sections: Vec<IndexSection>) -> (r: SectionTracker)
        requires
            sections_valid_spec(sections@),
        ensures
            r.wf(),
            r.sections_spec() == sections@,
            r.index_spec() == 0,
    {
        let inside = if sections.len() > 0 {
            sections[0].first_line == 0
        } else {
            false
        };
        SectionTracker { current_index: 0, section_index: 0, sections, inside }
    }

    /// Whether the ordinal the tracker stands on lies inside some section.
    pub fn inside(&self) -> (r: bool)
        requires
            self.wf(),
        ensures
            r == self.inside_spec(),
            r == in_sections(self.sections_spec(), self.index_spec()),
    {
        proof {
            self.lemma_classifies();
        }
        self.inside
    }

    /// The ordinal the tracker currently stands on.
    pub fn current_index(&self) -> (r: usize)
        ensures
            r as int == self.index_spec(),
    {
        self.current_index
    }

    /// Steps the tracker to the next ordinal, keeping the classification
    /// exact; once the section list is exhausted it reports outside forever.
    pub fn advance(&mut self)
        requires
            old(self).wf(),
            old(self).index_spec() < usize::MAX,
        ensures
            final(self).wf(),
            final(self).sections_spec() == old(self).sections_spec(),
            final(self).index_spec() == old(self).index_spec() + 1,
    {
        self.current_index += 1;
        if !self.inside {
            if self.section_index < self.sections.len()
                && self.sections[self.section_index].first_line == self.current_index {
                self.inside = true;
            }
        } else if self.sections[self.section_index].last_line < self.current_index {
            let n = self.sections.len();
            self.inside = false;
            self.section_index += 1;
            if self.section_index < n {
                if self.sections[self.section_index].first_line == self.current_index {
                    self.inside = true;
                }
            }
        }
    }
}

} // verus!
