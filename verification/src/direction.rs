//! The two directions in which a relayed connection carries bytes, and the
//! labels under which their traffic is shown.

use vstd::prelude::*;

verus! {

/// One of the two independent byte flows of a relayed connection.
#[derive(Clone, Copy, Debug, PartialEq, Eq, Structural)]
pub enum Direction {
    /// From the client that connected to the target.
    ClientToServer,
    /// From the target back to the client.
    ServerToClient,
}

/// The label under which a dump shows traffic from `from` to `to`: both
/// names in square brackets with an arrow between them, and a space behind.
pub open spec fn label_text(from: Seq<char>, to: Seq<char>) -> Seq<char> {
    seq!['['] + from + seq![' ', '\u{2192}', ' '] + to + seq![']', ' ']
}

impl Direction {
    /// The name of the side that this direction reads from.
    pub open spec fn source_name(self) -> Seq<char> {
        match self {
            Direction::ClientToServer => "CLIENT"@,
            Direction::ServerToClient => "SERVER"@,
        }
    }

    /// The name of the side that this direction writes to.
    pub open spec fn destination_name(self) -> Seq<char> {
        match self {
            Direction::ClientToServer => "SERVER"@,
            Direction::ServerToClient => "CLIENT"@,
        }
    }

    /// The direction that carries the answers to this one.
    pub open spec fn reversed(self) -> Direction {
        match self {
            Direction::ClientToServer => Direction::ServerToClient,
            Direction::ServerToClient => Direction::ClientToServer,
        }
    }

    /// The label of this direction's dumps.
    pub open spec fn label(self) -> Seq<char> {
        label_text(self.source_name(), self.destination_name())
    }

    /// The name of the side that this direction reads from.
    pub fn source(self) -> (name: &'static str)
        ensures
            name@ == self.source_name(),
    {
        match self {
            Direction::ClientToServer => "CLIENT",
            Direction::ServerToClient => "SERVER",
        }
    }

    /// The name of the side that this direction writes to.
    pub fn destination(self) -> (name: &'static str)
        ensures
            name@ == self.destination_name(),
    {
        match self {
            Direction::ClientToServer => "SERVER",
            Direction::ServerToClient => "CLIENT",
        }
    }

    /// The direction that carries the answers to this one.
    pub fn opposite(self) -> (other: Direction)
        ensures
            other == self.reversed(),
            other != self,
            other.reversed() == self,
    {
        match self {
            Direction::ClientToServer => Direction::ServerToClient,
            Direction::ServerToClient => Direction::ClientToServer,
        }
    }

    /// The label of this direction's dumps, such as `[CLIENT → SERVER] `.
    pub fn dump_prefix(self) -> (prefix: String)
        ensures
            prefix@ == self.label(),
    {
        dump_label(self.source(), self.destination())
    }
}

/// The label under which a dump shows traffic from `from` to `to`.
pub fn dump_label(from: &str, to: &str) -> (label: String)
    ensures
        label@ == label_text(from@, to@),
{
    proof {
        reveal_strlit("[");
        reveal_strlit(" \u{2192} ");
        reveal_strlit("] ");
    }
    let mut label = String::new();
    label.append("[");
    label.append(from);
    label.append(" \u{2192} ");
    label.append(to);
    label.append("] ");
    label
}

/// A direction's source is the other direction's destination.
pub proof fn lemma_directions_mirror(direction: Direction)
    ensures
        direction.reversed().source_name() == direction.destination_name(),
        direction.reversed().destination_name() == direction.source_name(),
        direction.reversed().reversed() == direction,
{
}

} // verus!
