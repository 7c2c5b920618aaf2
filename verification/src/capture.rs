use vstd::prelude::*;

verus! {

/// One node of the syntax tree that a query captured: which capture of the
/// query it belongs to, and where the node lies in the source.
#[derive(Clone, Copy, Debug, PartialEq, Eq, Structural)]
pub struct Capture {
    /// The number of the capture within its query.
    pub index: u32,
    /// The offset of the node's first byte.
    pub start_byte: usize,
    /// The offset just past the node's last byte.
    pub end_byte: usize,
    /// The line on which the node starts, counted from 0.
    pub row: usize,
    /// The column at which the node starts, counted from 0.
    pub column: usize,
}

/// One match of a query: the nodes it captured, in the order in which the
/// query engine reports them.
#[derive(Clone, Debug, PartialEq, Eq)]
pub struct QueryMatch {
    pub captures: Vec<Capture>,
}

impl View for QueryMatch {
    type V = Seq<Capture>;

    open spec fn view(&self) -> Seq<Capture> {
        self.captures@
    }
}

/// The captures of each of a list of matches, in order.
pub open spec fn match_views(matches: Seq<QueryMatch>) -> Seq<Seq<Capture>> {
    matches.map_values(|m: QueryMatch| m@)
}

/// The first capture numbered `index` among `captures`, if there is one.
pub open spec fn captured(captures: Seq<Capture>, index: u32) -> Option<Capture>
    decreases captures.len(),
{
    if captures.len() == 0 {
        None
    } else if captures[0].index == index {
        Some(captures[0])
    } else {
        captured(captures.drop_first(), index)
    }
}

/// The bytes of the source that a capture covers; none where its range does
/// not lie within the source.
pub open spec fn capture_bytes(capture: Capture, source: Seq<u8>) -> Option<Seq<u8>> {
    if capture.start_byte <= capture.end_byte <= source.len() {
        Some(source.subrange(capture.start_byte as int, capture.end_byte as int))
    } else {
        None
    }
}

impl QueryMatch {
    /// The first capture of the match that is numbered `index`.
    pub fn find(&self, index: u32) -> (found: Option<Capture>)
        ensures
            found == captured(self@, index),
    {
        let mut i: usize = 0;
        assert(self@.skip(0) =~= self@);
        while i < self.captures.len()
            invariant
                i <= self.captures.len(),
                captured(self@, index) == captured(self@.skip(i as int), index),
            decreases self.captures.len() - i,
        {
            let capture = self.captures[i];
            proof {
                let rest = self@.skip(i as int);
                assert(rest[0] == capture);
                assert(rest.drop_first() =~= self@.skip(i + 1));
            }
            if capture.index == index {
                return Some(capture);
            }
            i += 1;
        }
        None
    }
}

/// A capture that is found is one of the captures, and carries the number
/// asked for.
pub proof fn captured_is_member(captures: Seq<Capture>, index: u32)
    ensures
        captured(captures, index) matches Some(c) ==> c.index == index && captures.contains(c),
        captured(captures, index) is None ==> forall|i: int|
            0 <= i < captures.len() ==> captures[i].index != index,
    decreases captures.len(),
{
    if captures.len() > 0 && captures[0].index != index {
        let rest = captures.drop_first();
        captured_is_member(rest, index);
        if let Some(c) = captured(rest, index) {
            let i = choose|i: int| 0 <= i < rest.len() && rest[i] == c;
            assert(captures[i + 1] == c);
        }
        assert forall|i: int| 0 <= i < captures.len() && captured(captures, index) is None
            implies captures[i].index != index by {
            if i > 0 {
                assert(rest[i - 1] == captures[i]);
            }
        }
    }
}

} // verus!
