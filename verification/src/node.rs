use vstd::prelude::*;
use vstd::string::*;

verus! {

/// A configured remote node. Each node has a canonical name ("node1") and a
/// 1-based numeric shorthand ("1"); both forms identify the same node.
#[derive(Clone, Copy, Debug, PartialEq, Eq, Structural)]
pub enum Node {
    Node1,
    Node2,
    Node3,
    Node4,
}

impl Node {
    /// Canonical display name of the node.
    pub open spec fn name_spec(self) -> Seq<char> {
        match self {
            Node::Node1 => "node1"@,
            Node::Node2 => "node2"@,
            Node::Node3 => "node3"@,
            Node::Node4 => "node4"@,
        }
    }

    /// Zero-based position of the node in the configured list.
    pub open spec fn index_spec(self) -> u8 {
        match self {
            Node::Node1 => 0,
            Node::Node2 => 1,
            Node::Node3 => 2,
            Node::Node4 => 3,
        }
    }

    /// Which node, if any, an input string identifies: the canonical name or
    /// the 1-based numeric shorthand.
    pub open spec fn parse_spec(s: Seq<char>) -> Option<Node> {
        if s == "node1"@ || s == "1"@ {
            Some(Node::Node1)
        } else if s == "node2"@ || s == "2"@ {
            Some(Node::Node2)
        } else if s == "node3"@ || s == "3"@ {
            Some(Node::Node3)
        } else if s == "node4"@ || s == "4"@ {
            Some(Node::Node4)
        } else {
            None
        }
    }

    /// The canonical name, used both as the display label and as the lookup
    /// key into the host configuration.
    pub fn as_str(self) -> (r: &'static str)
        ensures
            r@ == self.name_spec(),
    {
        match self {
            Node::Node1 => "node1",
            Node::Node2 => "node2",
            Node::Node3 => "node3",
            Node::Node4 => "node4",
        }
    }

    /// Zero-based index of the node.
    pub fn to_u8(self) -> (r: u8)
        ensures
            r == self.index_spec(),
    {
        match self {
            Node::Node1 => 0,
            Node::Node2 => 1,
            Node::Node3 => 2,
            Node::Node4 => 3,
        }
    }

    /// The node at a zero-based index. Out-of-range values are excluded by
    /// the caller.
    pub fn from_u8(value: u8) -> (r: Node)
        requires
            value < 4,
        ensures
            r.index_spec() == value,
    {
        if value == 0 {
            Node::Node1
        } else if value == 1 {
            Node::Node2
        } else if value == 2 {
            Node::Node3
        } else {
            Node::Node4
        }
    }

    /// Parses a node identifier: either a canonical name or a 1-based numeric
    /// shorthand. Anything else is rejected as a configuration error.
    pub fn from_str(s: &str) -> (r: Result<Node, String>)
        ensures
            match r {
                Ok(n) => Node::parse_spec(s@) == Some(n),
                Err(e) => Node::parse_spec(s@) is None && e@ == "Invalid node value: "@ + s@,
            },
    {
        let owned = String::from_str(s);
        if owned == String::from_str("node1") || owned == String::from_str("1") {
            Ok(Node::Node1)
        } else if owned == String::from_str("node2") || owned == String::from_str("2") {
            Ok(Node::Node2)
        } else if owned == String::from_str("node3") || owned == String::from_str("3") {
            Ok(Node::Node3)
        } else if owned == String::from_str("node4") || owned == String::from_str("4") {
            Ok(Node::Node4)
        } else {
            Err(String::from_str("Invalid node value: ").concat(s))
        }
    }
}

/// The canonical name and the numeric shorthand identify the same node, and
/// the shorthands outside the configured 1-based range are rejected.
pub proof fn lemma_numeric_alias()
    ensures
        Node::parse_spec("1"@) == Node::parse_spec("node1"@),
        Node::parse_spec("2"@) == Node::parse_spec("node2"@),
        Node::parse_spec("3"@) == Node::parse_spec("node3"@),
        Node::parse_spec("4"@) == Node::parse_spec("node4"@),
        Node::parse_spec("0"@) is None,
        Node::parse_spec("5"@) is None,
{
    reveal_strlit("node1");
    reveal_strlit("node2");
    reveal_strlit("node3");
    reveal_strlit("node4");
    reveal_strlit("1");
    reveal_strlit("2");
    reveal_strlit("3");
    reveal_strlit("4");
    reveal_strlit("0");
    reveal_strlit("5");
    assert("node1"@.len() == 5 && "node2"@.len() == 5 && "node3"@.len() == 5
        && "node4"@.len() == 5);
    assert("0"@.len() == 1 && "1"@.len() == 1 && "2"@.len() == 1 && "3"@.len() == 1
        && "4"@.len() == 1 && "5"@.len() == 1);
    assert(Node::parse_spec("1"@) == Some(Node::Node1));
    assert(Node::parse_spec("node1"@) == Some(Node::Node1));
    assert("2"@ != "1"@) by {
        assert("2"@[0] == '2' && "1"@[0] == '1');
    }
    assert("node2"@ != "node1"@) by {
        assert("node2"@[4] == '2' && "node1"@[4] == '1');
    }
    assert(Node::parse_spec("2"@) == Some(Node::Node2));
    assert(Node::parse_spec("node2"@) == Some(Node::Node2));
    assert("3"@ != "1"@ && "3"@ != "2"@) by {
        assert("3"@[0] == '3' && "1"@[0] == '1' && "2"@[0] == '2');
    }
    assert("node3"@ != "node1"@ && "node3"@ != "node2"@) by {
        assert("node3"@[4] == '3' && "node1"@[4] == '1' && "node2"@[4] == '2');
    }
    assert(Node::parse_spec("3"@) == Some(Node::Node3));
    assert(Node::parse_spec("node3"@) == Some(Node::Node3));
    assert("4"@ != "1"@ && "4"@ != "2"@ && "4"@ != "3"@) by {
        assert("4"@[0] == '4' && "1"@[0] == '1' && "2"@[0] == '2' && "3"@[0] == '3');
    }
    assert("node4"@ != "node1"@ && "node4"@ != "node2"@ && "node4"@ != "node3"@) by {
        assert("node4"@[4] == '4' && "node1"@[4] == '1' && "node2"@[4] == '2'
            && "node3"@[4] == '3');
    }
    assert(Node::parse_spec("4"@) == Some(Node::Node4));
    assert(Node::parse_spec("node4"@) == Some(Node::Node4));
}

} // verus!
