//! Relationship types between users and the transitive inference over a
//! snapshot of known relationships.

use vstd::prelude::*;

use crate::text::same_text;

verus! {

/// Mathematical model of a [`RelationType`]: the same variants, with the
/// custom label held as a sequence of characters.
pub enum RelationKind {
    Parent,
    Child,
    Sibling,
    Spouse,
    Grandparent,
    Grandchild,
    Uncle,
    Aunt,
    Nephew,
    Niece,
    Cousin,
    Friend,
    Colleague,
    Mentor,
    Student,
    Creator,
    Administrator,
    User,
    Custom(Seq<char>),
}

/// Relationship type between users.
#[derive(Debug, Clone, PartialEq, Eq, Hash)]
pub enum RelationType {
    // Family relationships
    Parent,
    Child,
    Sibling,
    Spouse,
    // Extended family (inferred)
    Grandparent,
    Grandchild,
    Uncle,
    Aunt,
    Nephew,
    Niece,
    Cousin,
    // Social relationships
    Friend,
    Colleague,
    Mentor,
    Student,
    // System relationships
    Creator,
    Administrator,
    User,
    // Custom
    Custom(String),
}

impl View for RelationType {
    type V = RelationKind;

    open spec fn view(&self) -> RelationKind {
        match self {
            RelationType::Parent => RelationKind::Parent,
            RelationType::Child => RelationKind::Child,
            RelationType::Sibling => RelationKind::Sibling,
            RelationType::Spouse => RelationKind::Spouse,
            RelationType::Grandparent => RelationKind::Grandparent,
            RelationType::Grandchild => RelationKind::Grandchild,
            RelationType::Uncle => RelationKind::Uncle,
            RelationType::Aunt => RelationKind::Aunt,
            RelationType::Nephew => RelationKind::Nephew,
            RelationType::Niece => RelationKind::Niece,
            RelationType::Cousin => RelationKind::Cousin,
            RelationType::Friend => RelationKind::Friend,
            RelationType::Colleague => RelationKind::Colleague,
            RelationType::Mentor => RelationKind::Mentor,
            RelationType::Student => RelationKind::Student,
            RelationType::Creator => RelationKind::Creator,
            RelationType::Administrator => RelationKind::Administrator,
            RelationType::User => RelationKind::User,
            RelationType::Custom(s) => RelationKind::Custom(s@),
        }
    }
}

/// The stored text of a relationship kind.
pub open spec fn kind_name(k: RelationKind) -> Seq<char> {
    match k {
        RelationKind::Parent => "parent"@,
        RelationKind::Child => "child"@,
        RelationKind::Sibling => "sibling"@,
        RelationKind::Spouse => "spouse"@,
        RelationKind::Grandparent => "grandparent"@,
        RelationKind::Grandchild => "grandchild"@,
        RelationKind::Uncle => "uncle"@,
        RelationKind::Aunt => "aunt"@,
        RelationKind::Nephew => "nephew"@,
        RelationKind::Niece => "niece"@,
        RelationKind::Cousin => "cousin"@,
        RelationKind::Friend => "friend"@,
        RelationKind::Colleague => "colleague"@,
        RelationKind::Mentor => "mentor"@,
        RelationKind::Student => "student"@,
        RelationKind::Creator => "creator"@,
        RelationKind::Administrator => "administrator"@,
        RelationKind::User => "user"@,
        RelationKind::Custom(label) => "custom:"@ + label,
    }
}

/// The relationship kind that stored text denotes: a known name gives its
/// kind, text starting with `custom:` gives a custom kind labelled with the
/// rest, and any other text gives a custom kind labelled with all of it.
pub open spec fn parse_kind(s: Seq<char>) -> RelationKind {
    if s == "parent"@ {
        RelationKind::Parent
    } else if s == "child"@ {
        RelationKind::Child
    } else if s == "sibling"@ {
        RelationKind::Sibling
    } else if s == "spouse"@ {
        RelationKind::Spouse
    } else if s == "grandparent"@ {
        RelationKind::Grandparent
    } else if s == "grandchild"@ {
        RelationKind::Grandchild
    } else if s == "uncle"@ {
        RelationKind::Uncle
    } else if s == "aunt"@ {
        RelationKind::Aunt
    } else if s == "nephew"@ {
        RelationKind::Nephew
    } else if s == "niece"@ {
        RelationKind::Niece
    } else if s == "cousin"@ {
        RelationKind::Cousin
    } else if s == "friend"@ {
        RelationKind::Friend
    } else if s == "colleague"@ {
        RelationKind::Colleague
    } else if s == "mentor"@ {
        RelationKind::Mentor
    } else if s == "student"@ {
        RelationKind::Student
    } else if s == "creator"@ {
        RelationKind::Creator
    } else if s == "administrator"@ {
        RelationKind::Administrator
    } else if s == "user"@ {
        RelationKind::User
    } else if "custom:"@.is_prefix_of(s) {
        RelationKind::Custom(s.skip("custom:"@.len() as int))
    } else {
        RelationKind::Custom(s)
    }
}

/// The inverse of a relationship kind, where it has one.
pub open spec fn inverse_kind(k: RelationKind) -> Option<RelationKind> {
    match k {
        RelationKind::Parent => Some(RelationKind::Child),
        RelationKind::Child => Some(RelationKind::Parent),
        RelationKind::Grandparent => Some(RelationKind::Grandchild),
        RelationKind::Grandchild => Some(RelationKind::Grandparent),
        RelationKind::Uncle => Some(RelationKind::Nephew),
        RelationKind::Aunt => Some(RelationKind::Niece),
        RelationKind::Nephew => Some(RelationKind::Uncle),
        RelationKind::Niece => Some(RelationKind::Aunt),
        RelationKind::Mentor => Some(RelationKind::Student),
        RelationKind::Student => Some(RelationKind::Mentor),
        RelationKind::Sibling => Some(RelationKind::Sibling),
        RelationKind::Spouse => Some(RelationKind::Spouse),
        RelationKind::Friend => Some(RelationKind::Friend),
        RelationKind::Colleague => Some(RelationKind::Colleague),
        RelationKind::Cousin => Some(RelationKind::Cousin),
        _ => None,
    }
}

/// The model of an optional relationship type.
pub open spec fn optional_kind(t: Option<RelationType>) -> Option<RelationKind> {
    match t {
        Some(t) => Some(t@),
        None => None,
    }
}

impl RelationType {
    /// Convert relationship type to string for storage
    pub fn to_string(&self) -> (s: String)
        ensures
            s@ == kind_name(self@),
    {
        match self {
            RelationType::Parent => String::from_str("parent"),
            RelationType::Child => String::from_str("child"),
            RelationType::Sibling => String::from_str("sibling"),
            RelationType::Spouse => String::from_str("spouse"),
            RelationType::Grandparent => String::from_str("grandparent"),
            RelationType::Grandchild => String::from_str("grandchild"),
            RelationType::Uncle => String::from_str("uncle"),
            RelationType::Aunt => String::from_str("aunt"),
            RelationType::Nephew => String::from_str("nephew"),
            RelationType::Niece => String::from_str("niece"),
            RelationType::Cousin => String::from_str("cousin"),
            RelationType::Friend => String::from_str("friend"),
            RelationType::Colleague => String::from_str("colleague"),
            RelationType::Mentor => String::from_str("mentor"),
            RelationType::Student => String::from_str("student"),
            RelationType::Creator => String::from_str("creator"),
            RelationType::Administrator => String::from_str("administrator"),
            RelationType::User => String::from_str("user"),
            RelationType::Custom(label) => String::from_str("custom:").concat(label.as_str()),
        }
    }

    /// Parse relationship type from string
    pub fn from_string(s: &str) -> (t: Self)
        ensures
            t@ == parse_kind(s@),
    {
        if same_text(s, "parent") {
            RelationType::Parent
        } else if same_text(s, "child") {
            RelationType::Child
        } else if same_text(s, "sibling") {
            RelationType::Sibling
        } else if same_text(s, "spouse") {
            RelationType::Spouse
        } else if same_text(s, "grandparent") {
            RelationType::Grandparent
        } else if same_text(s, "grandchild") {
            RelationType::Grandchild
        } else if same_text(s, "uncle") {
            RelationType::Uncle
        } else if same_text(s, "aunt") {
            RelationType::Aunt
        } else if same_text(s, "nephew") {
            RelationType::Nephew
        } else if same_text(s, "niece") {
            RelationType::Niece
        } else if same_text(s, "cousin") {
            RelationType::Cousin
        } else if same_text(s, "friend") {
            RelationType::Friend
        } else if same_text(s, "colleague") {
            RelationType::Colleague
        } else if same_text(s, "mentor") {
            RelationType::Mentor
        } else if same_text(s, "student") {
            RelationType::Student
        } else if same_text(s, "creator") {
            RelationType::Creator
        } else if same_text(s, "administrator") {
            RelationType::Administrator
        } else if same_text(s, "user") {
            RelationType::User
        } else if s.unicode_len() >= 7 && same_text(s.substring_char(0, 7), "custom:") {
            proof {
                reveal_strlit("custom:");
            }
            RelationType::Custom(s.substring_char(7, s.unicode_len()).to_owned())
        } else {
            proof {
                reveal_strlit("custom:");
            }
            RelationType::Custom(s.to_owned())
        }
    }

    /// Get the inverse relationship
    pub fn inverse(&self) -> (r: Option<RelationType>)
        ensures
            optional_kind(r) == inverse_kind(self@),
    {
        match self {
            RelationType::Parent => Some(RelationType::Child),
            RelationType::Child => Some(RelationType::Parent),
            RelationType::Grandparent => Some(RelationType::Grandchild),
            RelationType::Grandchild => Some(RelationType::Grandparent),
            RelationType::Uncle => Some(RelationType::Nephew),  // Simplified
            RelationType::Aunt => Some(RelationType::Niece),  // Simplified
            RelationType::Nephew => Some(RelationType::Uncle),  // Simplified
            RelationType::Niece => Some(RelationType::Aunt),  // Simplified
            RelationType::Mentor => Some(RelationType::Student),
            RelationType::Student => Some(RelationType::Mentor),
            RelationType::Sibling => Some(RelationType::Sibling),
            RelationType::Spouse => Some(RelationType::Spouse),
            RelationType::Friend => Some(RelationType::Friend),
            RelationType::Colleague => Some(RelationType::Colleague),
            RelationType::Cousin => Some(RelationType::Cousin),
            _ => None,
        }
    }
}

/// Source of relationship information
#[derive(Debug, Clone, Copy, PartialEq, Eq, Structural)]
pub enum RelationshipSource {
    /// User explicitly stated
    Explicit,
    /// Inferred through transitive rules
    Inferred,
    /// From config file
    Configuration,
}

/// The stored text of a relationship source.
pub open spec fn source_name(source: RelationshipSource) -> Seq<char> {
    match source {
        RelationshipSource::Explicit => "explicit"@,
        RelationshipSource::Inferred => "inferred"@,
        RelationshipSource::Configuration => "configuration"@,
    }
}

/// The relationship source that stored text denotes; unknown text is
/// taken as explicit.
pub open spec fn parse_source(s: Seq<char>) -> RelationshipSource {
    if s == "explicit"@ {
        RelationshipSource::Explicit
    } else if s == "inferred"@ {
        RelationshipSource::Inferred
    } else if s == "configuration"@ {
        RelationshipSource::Configuration
    } else {
        RelationshipSource::Explicit
    }
}

impl RelationshipSource {
    /// Convert the source to its stored text.
    pub fn to_string(&self) -> (s: String)
        ensures
            s@ == source_name(*self),
    {
        match self {
            RelationshipSource::Explicit => String::from_str("explicit"),
            RelationshipSource::Inferred => String::from_str("inferred"),
            RelationshipSource::Configuration => String::from_str("configuration"),
        }
    }

    /// Parse a source from its stored text; unknown text is explicit.
    pub fn from_string(s: &str) -> (r: Self)
        ensures
            r == parse_source(s@),
    {
        if same_text(s, "explicit") {
            RelationshipSource::Explicit
        } else if same_text(s, "inferred") {
            RelationshipSource::Inferred
        } else if same_text(s, "configuration") {
            RelationshipSource::Configuration
        } else {
            RelationshipSource::Explicit
        }
    }
}

/// The stored text of a custom kind never collides with a known name.
proof fn lemma_custom_name_roundtrip(label: Seq<char>)
    ensures
        parse_kind("custom:"@ + label) == RelationKind::Custom(label),
{
    reveal_strlit("parent");
    reveal_strlit("child");
    reveal_strlit("sibling");
    reveal_strlit("spouse");
    reveal_strlit("grandparent");
    reveal_strlit("grandchild");
    reveal_strlit("uncle");
    reveal_strlit("aunt");
    reveal_strlit("nephew");
    reveal_strlit("niece");
    reveal_strlit("cousin");
    reveal_strlit("friend");
    reveal_strlit("colleague");
    reveal_strlit("mentor");
    reveal_strlit("student");
    reveal_strlit("creator");
    reveal_strlit("administrator");
    reveal_strlit("user");
    reveal_strlit("custom:");
    let text = "custom:"@ + label;
    assert(text[0] == 'c' && text[1] == 'u' && text[6] == ':');
    assert(text != "parent"@) by { if text.len() == "parent"@.len() { assert(text[1] != "parent"@[1]); } }
    assert(text != "child"@) by { if text.len() == "child"@.len() { assert(text[1] != "child"@[1]); } }
    assert(text != "sibling"@) by { if text.len() == "sibling"@.len() { assert(text[1] != "sibling"@[1]); } }
    assert(text != "spouse"@) by { if text.len() == "spouse"@.len() { assert(text[1] != "spouse"@[1]); } }
    assert(text != "grandparent"@) by { if text.len() == "grandparent"@.len() { assert(text[1] != "grandparent"@[1]); } }
    assert(text != "grandchild"@) by { if text.len() == "grandchild"@.len() { assert(text[1] != "grandchild"@[1]); } }
    assert(text != "uncle"@) by { if text.len() == "uncle"@.len() { assert(text[1] != "uncle"@[1]); } }
    assert(text != "aunt"@) by { if text.len() == "aunt"@.len() { assert(text[1] != "aunt"@[1]); } }
    assert(text != "nephew"@) by { if text.len() == "nephew"@.len() { assert(text[1] != "nephew"@[1]); } }
    assert(text != "niece"@) by { if text.len() == "niece"@.len() { assert(text[1] != "niece"@[1]); } }
    assert(text != "cousin"@) by { if text.len() == "cousin"@.len() { assert(text[1] != "cousin"@[1]); } }
    assert(text != "friend"@) by { if text.len() == "friend"@.len() { assert(text[1] != "friend"@[1]); } }
    assert(text != "colleague"@) by { if text.len() == "colleague"@.len() { assert(text[1] != "colleague"@[1]); } }
    assert(text != "mentor"@) by { if text.len() == "mentor"@.len() { assert(text[1] != "mentor"@[1]); } }
    assert(text != "student"@) by { if text.len() == "student"@.len() { assert(text[1] != "student"@[1]); } }
    assert(text != "creator"@) by { if text.len() == "creator"@.len() { assert(text[1] != "creator"@[1]); } }
    assert(text != "administrator"@) by { if text.len() == "administrator"@.len() { assert(text[1] != "administrator"@[1]); } }
    assert(text != "user"@) by { if text.len() == "user"@.len() { assert(text[1] != "user"@[1]); } }
    assert(text.subrange(0, 7) =~= "custom:"@);
    assert(text.skip(7) =~= label);
}

/// Reading back the stored text of any relationship kind gives that kind
/// again: `from_string` undoes `to_string`.
pub proof fn lemma_kind_name_roundtrip(k: RelationKind)
    ensures
        parse_kind(kind_name(k)) == k,
{
    reveal_strlit("parent");
    reveal_strlit("child");
    reveal_strlit("sibling");
    reveal_strlit("spouse");
    reveal_strlit("grandparent");
    reveal_strlit("grandchild");
    reveal_strlit("uncle");
    reveal_strlit("aunt");
    reveal_strlit("nephew");
    reveal_strlit("niece");
    reveal_strlit("cousin");
    reveal_strlit("friend");
    reveal_strlit("colleague");
    reveal_strlit("mentor");
    reveal_strlit("student");
    reveal_strlit("creator");
    reveal_strlit("administrator");
    reveal_strlit("user");
    match k {
        RelationKind::Custom(label) => {
            lemma_custom_name_roundtrip(label);
        },
        RelationKind::Parent => {},
        RelationKind::Child => {
            assert("child"@ != "parent"@) by { assert("child"@.len() != "parent"@.len()); }
        },
        RelationKind::Sibling => {
            assert("sibling"@ != "parent"@) by { assert("sibling"@.len() != "parent"@.len()); }
            assert("sibling"@ != "child"@) by { assert("sibling"@.len() != "child"@.len()); }
        },
        RelationKind::Spouse => {
            assert("spouse"@ != "parent"@) by { assert("spouse"@[0] != "parent"@[0]); }
            assert("spouse"@ != "child"@) by { assert("spouse"@.len() != "child"@.len()); }
            assert("spouse"@ != "sibling"@) by { assert("spouse"@.len() != "sibling"@.len()); }
        },
        RelationKind::Grandparent => {
            assert("grandparent"@ != "parent"@) by { assert("grandparent"@.len() != "parent"@.len()); }
            assert("grandparent"@ != "child"@) by { assert("grandparent"@.len() != "child"@.len()); }
            assert("grandparent"@ != "sibling"@) by { assert("grandparent"@.len() != "sibling"@.len()); }
            assert("grandparent"@ != "spouse"@) by { assert("grandparent"@.len() != "spouse"@.len()); }
        },
        RelationKind::Grandchild => {
            assert("grandchild"@ != "parent"@) by { assert("grandchild"@.len() != "parent"@.len()); }
            assert("grandchild"@ != "child"@) by { assert("grandchild"@.len() != "child"@.len()); }
            assert("grandchild"@ != "sibling"@) by { assert("grandchild"@.len() != "sibling"@.len()); }
            assert("grandchild"@ != "spouse"@) by { assert("grandchild"@.len() != "spouse"@.len()); }
            assert("grandchild"@ != "grandparent"@) by { assert("grandchild"@.len() != "grandparent"@.len()); }
        },
        RelationKind::Uncle => {
            assert("uncle"@ != "parent"@) by { assert("uncle"@.len() != "parent"@.len()); }
            assert("uncle"@ != "child"@) by { assert("uncle"@[0] != "child"@[0]); }
            assert("uncle"@ != "sibling"@) by { assert("uncle"@.len() != "sibling"@.len()); }
            assert("uncle"@ != "spouse"@) by { assert("uncle"@.len() != "spouse"@.len()); }
            assert("uncle"@ != "grandparent"@) by { assert("uncle"@.len() != "grandparent"@.len()); }
            assert("uncle"@ != "grandchild"@) by { assert("uncle"@.len() != "grandchild"@.len()); }
        },
        RelationKind::Aunt => {
            assert("aunt"@ != "parent"@) by { assert("aunt"@.len() != "parent"@.len()); }
            assert("aunt"@ != "child"@) by { assert("aunt"@.len() != "child"@.len()); }
            assert("aunt"@ != "sibling"@) by { assert("aunt"@.len() != "sibling"@.len()); }
            assert("aunt"@ != "spouse"@) by { assert("aunt"@.len() != "spouse"@.len()); }
            assert("aunt"@ != "grandparent"@) by { assert("aunt"@.len() != "grandparent"@.len()); }
            assert("aunt"@ != "grandchild"@) by { assert("aunt"@.len() != "grandchild"@.len()); }
            assert("aunt"@ != "uncle"@) by { assert("aunt"@.len() != "uncle"@.len()); }
        },
        RelationKind::Nephew => {
            assert("nephew"@ != "parent"@) by { assert("nephew"@[0] != "parent"@[0]); }
            assert("nephew"@ != "child"@) by { assert("nephew"@.len() != "child"@.len()); }
            assert("nephew"@ != "sibling"@) by { assert("nephew"@.len() != "sibling"@.len()); }
            assert("nephew"@ != "spouse"@) by { assert("nephew"@[0] != "spouse"@[0]); }
            assert("nephew"@ != "grandparent"@) by { assert("nephew"@.len() != "grandparent"@.len()); }
            assert("nephew"@ != "grandchild"@) by { assert("nephew"@.len() != "grandchild"@.len()); }
            assert("nephew"@ != "uncle"@) by { assert("nephew"@.len() != "uncle"@.len()); }
            assert("nephew"@ != "aunt"@) by { assert("nephew"@.len() != "aunt"@.len()); }
        },
        RelationKind::Niece => {
            assert("niece"@ != "parent"@) by { assert("niece"@.len() != "parent"@.len()); }
            assert("niece"@ != "child"@) by { assert("niece"@[0] != "child"@[0]); }
            assert("niece"@ != "sibling"@) by { assert("niece"@.len() != "sibling"@.len()); }
            assert("niece"@ != "spouse"@) by { assert("niece"@.len() != "spouse"@.len()); }
            assert("niece"@ != "grandparent"@) by { assert("niece"@.len() != "grandparent"@.len()); }
            assert("niece"@ != "grandchild"@) by { assert("niece"@.len() != "grandchild"@.len()); }
            assert("niece"@ != "uncle"@) by { assert("niece"@[0] != "uncle"@[0]); }
            assert("niece"@ != "aunt"@) by { assert("niece"@.len() != "aunt"@.len()); }
            assert("niece"@ != "nephew"@) by { assert("niece"@.len() != "nephew"@.len()); }
        },
        RelationKind::Cousin => {
            assert("cousin"@ != "parent"@) by { assert("cousin"@[0] != "parent"@[0]); }
            assert("cousin"@ != "child"@) by { assert("cousin"@.len() != "child"@.len()); }
            assert("cousin"@ != "sibling"@) by { assert("cousin"@.len() != "sibling"@.len()); }
            assert("cousin"@ != "spouse"@) by { assert("cousin"@[0] != "spouse"@[0]); }
            assert("cousin"@ != "grandparent"@) by { assert("cousin"@.len() != "grandparent"@.len()); }
            assert("cousin"@ != "grandchild"@) by { assert("cousin"@.len() != "grandchild"@.len()); }
            assert("cousin"@ != "uncle"@) by { assert("cousin"@.len() != "uncle"@.len()); }
            assert("cousin"@ != "aunt"@) by { assert("cousin"@.len() != "aunt"@.len()); }
            assert("cousin"@ != "nephew"@) by { assert("cousin"@[0] != "nephew"@[0]); }
            assert("cousin"@ != "niece"@) by { assert("cousin"@.len() != "niece"@.len()); }
        },
        RelationKind::Friend => {
            assert("friend"@ != "parent"@) by { assert("friend"@[0] != "parent"@[0]); }
            assert("friend"@ != "child"@) by { assert("friend"@.len() != "child"@.len()); }
            assert("friend"@ != "sibling"@) by { assert("friend"@.len() != "sibling"@.len()); }
            assert("friend"@ != "spouse"@) by { assert("friend"@[0] != "spouse"@[0]); }
            assert("friend"@ != "grandparent"@) by { assert("friend"@.len() != "grandparent"@.len()); }
            assert("friend"@ != "grandchild"@) by { assert("friend"@.len() != "grandchild"@.len()); }
            assert("friend"@ != "uncle"@) by { assert("friend"@.len() != "uncle"@.len()); }
            assert("friend"@ != "aunt"@) by { assert("friend"@.len() != "aunt"@.len()); }
            assert("friend"@ != "nephew"@) by { assert("friend"@[0] != "nephew"@[0]); }
            assert("friend"@ != "niece"@) by { assert("friend"@.len() != "niece"@.len()); }
            assert("friend"@ != "cousin"@) by { assert("friend"@[0] != "cousin"@[0]); }
        },
        RelationKind::Colleague => {
            assert("colleague"@ != "parent"@) by { assert("colleague"@.len() != "parent"@.len()); }
            assert("colleague"@ != "child"@) by { assert("colleague"@.len() != "child"@.len()); }
            assert("colleague"@ != "sibling"@) by { assert("colleague"@.len() != "sibling"@.len()); }
            assert("colleague"@ != "spouse"@) by { assert("colleague"@.len() != "spouse"@.len()); }
            assert("colleague"@ != "grandparent"@) by { assert("colleague"@.len() != "grandparent"@.len()); }
            assert("colleague"@ != "grandchild"@) by { assert("colleague"@.len() != "grandchild"@.len()); }
            assert("colleague"@ != "uncle"@) by { assert("colleague"@.len() != "uncle"@.len()); }
            assert("colleague"@ != "aunt"@) by { assert("colleague"@.len() != "aunt"@.len()); }
            assert("colleague"@ != "nephew"@) by { assert("colleague"@.len() != "nephew"@.len()); }
            assert("colleague"@ != "niece"@) by { assert("colleague"@.len() != "niece"@.len()); }
            assert("colleague"@ != "cousin"@) by { assert("colleague"@.len() != "cousin"@.len()); }
            assert("colleague"@ != "friend"@) by { assert("colleague"@.len() != "friend"@.len()); }
        },
        RelationKind::Mentor => {
            assert("mentor"@ != "parent"@) by { assert("mentor"@[0] != "parent"@[0]); }
            assert("mentor"@ != "child"@) by { assert("mentor"@.len() != "child"@.len()); }
            assert("mentor"@ != "sibling"@) by { assert("mentor"@.len() != "sibling"@.len()); }
            assert("mentor"@ != "spouse"@) by { assert("mentor"@[0] != "spouse"@[0]); }
            assert("mentor"@ != "grandparent"@) by { assert("mentor"@.len() != "grandparent"@.len()); }
            assert("mentor"@ != "grandchild"@) by { assert("mentor"@.len() != "grandchild"@.len()); }
            assert("mentor"@ != "uncle"@) by { assert("mentor"@.len() != "uncle"@.len()); }
            assert("mentor"@ != "aunt"@) by { assert("mentor"@.len() != "aunt"@.len()); }
            assert("mentor"@ != "nephew"@) by { assert("mentor"@[0] != "nephew"@[0]); }
            assert("mentor"@ != "niece"@) by { assert("mentor"@.len() != "niece"@.len()); }
            assert("mentor"@ != "cousin"@) by { assert("mentor"@[0] != "cousin"@[0]); }
            assert("mentor"@ != "friend"@) by { assert("mentor"@[0] != "friend"@[0]); }
            assert("mentor"@ != "colleague"@) by { assert("mentor"@.len() != "colleague"@.len()); }
        },
        RelationKind::Student => {
            assert("student"@ != "parent"@) by { assert("student"@.len() != "parent"@.len()); }
            assert("student"@ != "child"@) by { assert("student"@.len() != "child"@.len()); }
            assert("student"@ != "sibling"@) by { assert("student"@[1] != "sibling"@[1]); }
            assert("student"@ != "spouse"@) by { assert("student"@.len() != "spouse"@.len()); }
            assert("student"@ != "grandparent"@) by { assert("student"@.len() != "grandparent"@.len()); }
            assert("student"@ != "grandchild"@) by { assert("student"@.len() != "grandchild"@.len()); }
            assert("student"@ != "uncle"@) by { assert("student"@.len() != "uncle"@.len()); }
            assert("student"@ != "aunt"@) by { assert("student"@.len() != "aunt"@.len()); }
            assert("student"@ != "nephew"@) by { assert("student"@.len() != "nephew"@.len()); }
            assert("student"@ != "niece"@) by { assert("student"@.len() != "niece"@.len()); }
            assert("student"@ != "cousin"@) by { assert("student"@.len() != "cousin"@.len()); }
            assert("student"@ != "friend"@) by { assert("student"@.len() != "friend"@.len()); }
            assert("student"@ != "colleague"@) by { assert("student"@.len() != "colleague"@.len()); }
            assert("student"@ != "mentor"@) by { assert("student"@.len() != "mentor"@.len()); }
        },
        RelationKind::Creator => {
            assert("creator"@ != "parent"@) by { assert("creator"@.len() != "parent"@.len()); }
            assert("creator"@ != "child"@) by { assert("creator"@.len() != "child"@.len()); }
            assert("creator"@ != "sibling"@) by { assert("creator"@[0] != "sibling"@[0]); }
            assert("creator"@ != "spouse"@) by { assert("creator"@.len() != "spouse"@.len()); }
            assert("creator"@ != "grandparent"@) by { assert("creator"@.len() != "grandparent"@.len()); }
            assert("creator"@ != "grandchild"@) by { assert("creator"@.len() != "grandchild"@.len()); }
            assert("creator"@ != "uncle"@) by { assert("creator"@.len() != "uncle"@.len()); }
            assert("creator"@ != "aunt"@) by { assert("creator"@.len() != "aunt"@.len()); }
            assert("creator"@ != "nephew"@) by { assert("creator"@.len() != "nephew"@.len()); }
            assert("creator"@ != "niece"@) by { assert("creator"@.len() != "niece"@.len()); }
            assert("creator"@ != "cousin"@) by { assert("creator"@.len() != "cousin"@.len()); }
            assert("creator"@ != "friend"@) by { assert("creator"@.len() != "friend"@.len()); }
            assert("creator"@ != "colleague"@) by { assert("creator"@.len() != "colleague"@.len()); }
            assert("creator"@ != "mentor"@) by { assert("creator"@.len() != "mentor"@.len()); }
            assert("creator"@ != "student"@) by { assert("creator"@[0] != "student"@[0]); }
        },
        RelationKind::Administrator => {
            assert("administrator"@ != "parent"@) by { assert("administrator"@.len() != "parent"@.len()); }
            assert("administrator"@ != "child"@) by { assert("administrator"@.len() != "child"@.len()); }
            assert("administrator"@ != "sibling"@) by { assert("administrator"@.len() != "sibling"@.len()); }
            assert("administrator"@ != "spouse"@) by { assert("administrator"@.len() != "spouse"@.len()); }
            assert("administrator"@ != "grandparent"@) by { assert("administrator"@.len() != "grandparent"@.len()); }
            assert("administrator"@ != "grandchild"@) by { assert("administrator"@.len() != "grandchild"@.len()); }
            assert("administrator"@ != "uncle"@) by { assert("administrator"@.len() != "uncle"@.len()); }
            assert("administrator"@ != "aunt"@) by { assert("administrator"@.len() != "aunt"@.len()); }
            assert("administrator"@ != "nephew"@) by { assert("administrator"@.len() != "nephew"@.len()); }
            assert("administrator"@ != "niece"@) by { assert("administrator"@.len() != "niece"@.len()); }
            assert("administrator"@ != "cousin"@) by { assert("administrator"@.len() != "cousin"@.len()); }
            assert("administrator"@ != "friend"@) by { assert("administrator"@.len() != "friend"@.len()); }
            assert("administrator"@ != "colleague"@) by { assert("administrator"@.len() != "colleague"@.len()); }
            assert("administrator"@ != "mentor"@) by { assert("administrator"@.len() != "mentor"@.len()); }
            assert("administrator"@ != "student"@) by { assert("administrator"@.len() != "student"@.len()); }
            assert("administrator"@ != "creator"@) by { assert("administrator"@.len() != "creator"@.len()); }
        },
        RelationKind::User => {
            assert("user"@ != "parent"@) by { assert("user"@.len() != "parent"@.len()); }
            assert("user"@ != "child"@) by { assert("user"@.len() != "child"@.len()); }
            assert("user"@ != "sibling"@) by { assert("user"@.len() != "sibling"@.len()); }
            assert("user"@ != "spouse"@) by { assert("user"@.len() != "spouse"@.len()); }
            assert("user"@ != "grandparent"@) by { assert("user"@.len() != "grandparent"@.len()); }
            assert("user"@ != "grandchild"@) by { assert("user"@.len() != "grandchild"@.len()); }
            assert("user"@ != "uncle"@) by { assert("user"@.len() != "uncle"@.len()); }
            assert("user"@ != "aunt"@) by { assert("user"@[0] != "aunt"@[0]); }
            assert("user"@ != "nephew"@) by { assert("user"@.len() != "nephew"@.len()); }
            assert("user"@ != "niece"@) by { assert("user"@.len() != "niece"@.len()); }
            assert("user"@ != "cousin"@) by { assert("user"@.len() != "cousin"@.len()); }
            assert("user"@ != "friend"@) by { assert("user"@.len() != "friend"@.len()); }
            assert("user"@ != "colleague"@) by { assert("user"@.len() != "colleague"@.len()); }
            assert("user"@ != "mentor"@) by { assert("user"@.len() != "mentor"@.len()); }
            assert("user"@ != "student"@) by { assert("user"@.len() != "student"@.len()); }
            assert("user"@ != "creator"@) by { assert("user"@.len() != "creator"@.len()); }
            assert("user"@ != "administrator"@) by { assert("user"@.len() != "administrator"@.len()); }
        },
    }
}

/// Text that names a known kind, or that starts with `custom:`, reads back
/// unchanged: `to_string` undoes `from_string` on every text that
/// `to_string` can produce.
pub proof fn lemma_name_of_parsed_text(s: Seq<char>)
    requires
        !(parse_kind(s) is Custom) || "custom:"@.is_prefix_of(s),
    ensures
        kind_name(parse_kind(s)) == s,
{
    if parse_kind(s) is Custom {
        reveal_strlit("custom:");
        assert(("custom:"@ + s.skip(7)) =~= s);
    }
}

/// Taking the inverse twice gives back the kind one started from, for
/// every kind that has an inverse.
pub proof fn lemma_inverse_involution(k: RelationKind)
    ensures
        inverse_kind(k) matches Some(j) ==> inverse_kind(j) == Some(k),
{
}

/// Reading back the stored text of a source gives that source again.
pub proof fn lemma_source_name_roundtrip(source: RelationshipSource)
    ensures
        parse_source(source_name(source)) == source,
{
    reveal_strlit("explicit");
    reveal_strlit("inferred");
    reveal_strlit("configuration");
    assert("inferred"@ != "explicit"@) by { assert("inferred"@[0] != "explicit"@[0]); }
    assert("configuration"@ != "explicit"@) by { assert("configuration"@.len() != "explicit"@.len()); }
    assert("configuration"@ != "inferred"@) by { assert("configuration"@.len() != "inferred"@.len()); }
}

// ---------------------------------------------------------------------------
// Descriptions
// ---------------------------------------------------------------------------

/// How certain a relationship is, as its description words it: certain
/// from confidence 0.9 up, likely from 0.7 up, possible below.
#[derive(Debug, Clone, Copy, PartialEq, Eq, Structural)]
pub enum Certainty {
    Certain,
    Likely,
    Possible,
}

/// The words that follow a description for each certainty.
pub open spec fn certainty_note(certainty: Certainty) -> Seq<char> {
    match certainty {
        Certainty::Certain => ""@,
        Certainty::Likely => " (likely)"@,
        Certainty::Possible => " (possibly)"@,
    }
}

/// Human-readable description of a relationship of the given type and
/// certainty: its name, then how certain it is.
pub fn describe_relation(relationship_type: &RelationType, certainty: Certainty) -> (d: String)
    ensures
        d@ == kind_name(relationship_type@) + certainty_note(certainty),
{
    let desc = relationship_type.to_string();
    let note = match certainty {
        Certainty::Certain => "",
        Certainty::Likely => " (likely)",
        Certainty::Possible => " (possibly)",
    };
    desc.concat(note)
}

// ---------------------------------------------------------------------------
// Transitive inference
// ---------------------------------------------------------------------------

/// A directed relationship as the inference reads it: who relates to whom,
/// and how.
pub struct RelationshipEdge {
    pub from_user_id: String,
    pub to_user_id: String,
    pub relationship_type: RelationType,
}

/// Model of a [`RelationshipEdge`].
pub struct EdgeView {
    pub from: Seq<char>,
    pub to: Seq<char>,
    pub kind: RelationKind,
}

impl View for RelationshipEdge {
    type V = EdgeView;

    open spec fn view(&self) -> EdgeView {
        EdgeView { from: self.from_user_id@, to: self.to_user_id@, kind: self.relationship_type@ }
    }
}

/// The transitive rules, in the order in which they are applied.
#[derive(Debug, Clone, Copy, PartialEq, Eq, Structural)]
pub enum InferenceRule {
    /// If X is the creator and Y is a sibling of X, then Y is an uncle of
    /// the system user.
    CreatorSibling,
    /// If A is a parent of B and B is a parent of C, then A is a
    /// grandparent of C.
    ParentOfParent,
    /// If A is a parent of B and S is a sibling of A, then S is an uncle
    /// of B.
    ParentSibling,
}

/// A relationship that the rules infer. `premise` and `support` are the
/// positions, in the snapshot that was given, of the two relationships that
/// it was inferred from (for the creator rule: the creator relationship and
/// the sibling relationship).
pub struct InferredRelationship {
    pub from_user_id: String,
    pub to_user_id: String,
    pub relationship_type: RelationType,
    pub rule: InferenceRule,
    pub premise: usize,
    pub support: usize,
    pub source: RelationshipSource,
    pub metadata: String,
}

/// Model of an [`InferredRelationship`].
pub struct InferredView {
    pub from: Seq<char>,
    pub to: Seq<char>,
    pub kind: RelationKind,
    pub rule: InferenceRule,
    pub premise: int,
    pub support: int,
    pub source: RelationshipSource,
    pub metadata: Seq<char>,
}

impl View for InferredRelationship {
    type V = InferredView;

    open spec fn view(&self) -> InferredView {
        InferredView {
            from: self.from_user_id@,
            to: self.to_user_id@,
            kind: self.relationship_type@,
            rule: self.rule,
            premise: self.premise as int,
            support: self.support as int,
            source: self.source,
            metadata: self.metadata@,
        }
    }
}

/// The models of a sequence of inferred relationships.
pub open spec fn inferred_views(s: Seq<InferredRelationship>) -> Seq<InferredView> {
    s.map_values(|x: InferredRelationship| x@)
}

/// Some relationship of the snapshot goes from `from` to `to`, of any type.
pub open spec fn linked(edges: Seq<RelationshipEdge>, from: Seq<char>, to: Seq<char>) -> bool {
    exists|k: int| 0 <= k < edges.len() && #[trigger] edges[k]@.from == from && edges[k]@.to == to
}

/// The relationships at positions `i` and `j` of the snapshot match the
/// premises of `rule`.
pub open spec fn rule_applies(rule: InferenceRule, edges: Seq<RelationshipEdge>, i: int, j: int) -> bool {
    match rule {
        InferenceRule::CreatorSibling => {
            &&& edges[i]@.kind is Creator
            &&& edges[j]@.from == edges[i]@.from
            &&& edges[j]@.kind is Sibling
        },
        InferenceRule::ParentOfParent => {
            &&& edges[i]@.kind is Parent
            &&& edges[j]@.kind is Parent
            &&& edges[j]@.from == edges[i]@.to
        },
        InferenceRule::ParentSibling => {
            &&& edges[i]@.kind is Parent
            &&& edges[j]@.from == edges[i]@.from
            &&& edges[j]@.kind is Sibling
        },
    }
}

/// Who the inferred relationship goes from.
pub open spec fn inferred_from(rule: InferenceRule, edges: Seq<RelationshipEdge>, i: int, j: int) -> Seq<char> {
    match rule {
        InferenceRule::CreatorSibling => edges[j]@.to,
        InferenceRule::ParentOfParent => edges[i]@.from,
        InferenceRule::ParentSibling => edges[j]@.to,
    }
}

/// Who the inferred relationship goes to.
pub open spec fn inferred_to(
    rule: InferenceRule,
    edges: Seq<RelationshipEdge>,
    system_user: Seq<char>,
    i: int,
    j: int,
) -> Seq<char> {
    match rule {
        InferenceRule::CreatorSibling => system_user,
        InferenceRule::ParentOfParent => edges[j]@.to,
        InferenceRule::ParentSibling => edges[i]@.to,
    }
}

/// The kind of relationship that a rule infers.
pub open spec fn inferred_kind(rule: InferenceRule) -> RelationKind {
    match rule {
        InferenceRule::ParentOfParent => RelationKind::Grandparent,
        _ => RelationKind::Uncle,
    }
}

/// The explanation stored with an inferred relationship.
pub open spec fn inference_note(rule: InferenceRule, edges: Seq<RelationshipEdge>, i: int, j: int) -> Seq<char> {
    match rule {
        InferenceRule::CreatorSibling => "Inferred: "@ + edges[j]@.to + " is sibling of creator "@
            + edges[i]@.from,
        InferenceRule::ParentOfParent => "Inferred: "@ + edges[i]@.from + " is parent of "@
            + edges[i]@.to + ", "@ + edges[i]@.to + " is parent of "@ + edges[j]@.to,
        InferenceRule::ParentSibling => "Inferred: "@ + edges[j]@.to + " is sibling of parent "@
            + edges[i]@.from,
    }
}

/// The relationship that `rule` infers from positions `i` and `j`.
pub open spec fn conclusion(
    rule: InferenceRule,
    edges: Seq<RelationshipEdge>,
    system_user: Seq<char>,
    i: int,
    j: int,
) -> InferredView {
    InferredView {
        from: inferred_from(rule, edges, i, j),
        to: inferred_to(rule, edges, system_user, i, j),
        kind: inferred_kind(rule),
        rule: rule,
        premise: i,
        support: j,
        source: RelationshipSource::Inferred,
        metadata: inference_note(rule, edges, i, j),
    }
}

/// What one pair of positions contributes: the conclusion, when the rule
/// applies and the two users are not related yet in the snapshot.
pub open spec fn step(
    rule: InferenceRule,
    edges: Seq<RelationshipEdge>,
    system_user: Seq<char>,
    i: int,
    j: int,
) -> Seq<InferredView> {
    if rule_applies(rule, edges, i, j) && !linked(
        edges,
        inferred_from(rule, edges, i, j),
        inferred_to(rule, edges, system_user, i, j),
    ) {
        seq![conclusion(rule, edges, system_user, i, j)]
    } else {
        seq![]
    }
}

/// Contributions of position `i` paired with positions `0 .. m`, in order.
pub open spec fn scan_row(
    rule: InferenceRule,
    edges: Seq<RelationshipEdge>,
    system_user: Seq<char>,
    i: int,
    m: int,
) -> Seq<InferredView>
    decreases m,
{
    if m <= 0 {
        seq![]
    } else {
        scan_row(rule, edges, system_user, i, m - 1) + step(rule, edges, system_user, i, m - 1)
    }
}

/// Contributions of positions `0 .. k`, each paired with every position,
/// in order.
pub open spec fn scan_rule(
    rule: InferenceRule,
    edges: Seq<RelationshipEdge>,
    system_user: Seq<char>,
    k: int,
) -> Seq<InferredView>
    decreases k,
{
    if k <= 0 {
        seq![]
    } else {
        scan_rule(rule, edges, system_user, k - 1) + scan_row(rule, edges, system_user, k - 1, edges.len() as int)
    }
}

/// Everything that the three rules infer from a snapshot, rule by rule.
pub open spec fn inferences(edges: Seq<RelationshipEdge>, system_user: Seq<char>) -> Seq<InferredView> {
    let n: int = edges.len() as int;
    scan_rule(InferenceRule::CreatorSibling, edges, system_user, n)
        + scan_rule(InferenceRule::ParentOfParent, edges, system_user, n)
        + scan_rule(InferenceRule::ParentSibling, edges, system_user, n)
}

/// Whether the snapshot holds a relationship from `from` to `to`.
fn has_link(edges: &Vec<RelationshipEdge>, from: &str, to: &str) -> (r: bool)
    ensures
        r == linked(edges@, from@, to@),
{
    let n: usize = edges.len();
    for k in 0..n
        invariant
            n == edges@.len(),
            forall|q: int| 0 <= q < k ==> !(#[trigger] edges@[q]@.from == from@ && edges@[q]@.to == to@),
    {
        if same_text(edges[k].from_user_id.as_str(), from) && same_text(edges[k].to_user_id.as_str(), to) {
            assert(edges@[k as int]@.from == from@ && edges@[k as int]@.to == to@);
            return true;
        }
    }
    false
}

/// Whether the relationship type is the given unit variant.
fn is_creator(t: &RelationType) -> (r: bool)
    ensures
        r == (t@ is Creator),
{
    match t {
        RelationType::Creator => true,
        _ => false,
    }
}

fn is_sibling(t: &RelationType) -> (r: bool)
    ensures
        r == (t@ is Sibling),
{
    match t {
        RelationType::Sibling => true,
        _ => false,
    }
}

fn is_parent(t: &RelationType) -> (r: bool)
    ensures
        r == (t@ is Parent),
{
    match t {
        RelationType::Parent => true,
        _ => false,
    }
}

/// Whether `rule` applies to positions `i` and `j`.
fn applies(rule: InferenceRule, edges: &Vec<RelationshipEdge>, i: usize, j: usize) -> (r: bool)
    requires
        i < edges@.len(),
        j < edges@.len(),
    ensures
        r == rule_applies(rule, edges@, i as int, j as int),
{
    let first = &edges[i];
    let second = &edges[j];
    match rule {
        InferenceRule::CreatorSibling => is_creator(&first.relationship_type) && same_text(
            second.from_user_id.as_str(),
            first.from_user_id.as_str(),
        ) && is_sibling(&second.relationship_type),
        InferenceRule::ParentOfParent => is_parent(&first.relationship_type) && is_parent(
            &second.relationship_type,
        ) && same_text(second.from_user_id.as_str(), first.to_user_id.as_str()),
        InferenceRule::ParentSibling => is_parent(&first.relationship_type) && same_text(
            second.from_user_id.as_str(),
            first.from_user_id.as_str(),
        ) && is_sibling(&second.relationship_type),
    }
}

/// The relationship that `rule` infers from positions `i` and `j`.
fn conclude(
    rule: InferenceRule,
    edges: &Vec<RelationshipEdge>,
    system_user: &str,
    i: usize,
    j: usize,
) -> (r: InferredRelationship)
    requires
        i < edges@.len(),
        j < edges@.len(),
    ensures
        r@ == conclusion(rule, edges@, system_user@, i as int, j as int),
{
    let first = &edges[i];
    let second = &edges[j];
    match rule {
        InferenceRule::CreatorSibling => InferredRelationship {
            from_user_id: second.to_user_id.clone(),
            to_user_id: system_user.to_owned(),
            relationship_type: RelationType::Uncle,
            rule,
            premise: i,
            support: j,
            source: RelationshipSource::Inferred,
            metadata: String::from_str("Inferred: ").concat(second.to_user_id.as_str()).concat(
                " is sibling of creator ",
            ).concat(first.from_user_id.as_str()),
        },
        InferenceRule::ParentOfParent => InferredRelationship {
            from_user_id: first.from_user_id.clone(),
            to_user_id: second.to_user_id.clone(),
            relationship_type: RelationType::Grandparent,
            rule,
            premise: i,
            support: j,
            source: RelationshipSource::Inferred,
            metadata: String::from_str("Inferred: ").concat(first.from_user_id.as_str()).concat(
                " is parent of ",
            ).concat(first.to_user_id.as_str()).concat(", ").concat(first.to_user_id.as_str()).concat(
                " is parent of ",
            ).concat(second.to_user_id.as_str()),
        },
        InferenceRule::ParentSibling => InferredRelationship {
            from_user_id: second.to_user_id.clone(),
            to_user_id: first.to_user_id.clone(),
            relationship_type: RelationType::Uncle,
            rule,
            premise: i,
            support: j,
            source: RelationshipSource::Inferred,
            metadata: String::from_str("Inferred: ").concat(second.to_user_id.as_str()).concat(
                " is sibling of parent ",
            ).concat(first.from_user_id.as_str()),
        },
    }
}

/// Apply one rule to every pair of positions, appending what it infers.
fn infer_by_rule(
    rule: InferenceRule,
    edges: &Vec<RelationshipEdge>,
    system_user: &str,
    out: &mut Vec<InferredRelationship>,
)
    ensures
        inferred_views(final(out)@) == inferred_views(old(out)@) + scan_rule(
            rule,
            edges@,
            system_user@,
            edges@.len() as int,
        ),
{
    let n: usize = edges.len();
    let ghost start = inferred_views(out@);
    for i in 0..n
        invariant
            n == edges@.len(),
            inferred_views(out@) == start + scan_rule(rule, edges@, system_user@, i as int),
    {
        let ghost row_start = inferred_views(out@);
        for j in 0..n
            invariant
                n == edges@.len(),
                i < n,
                row_start == start + scan_rule(rule, edges@, system_user@, i as int),
                inferred_views(out@) == row_start + scan_row(rule, edges@, system_user@, i as int, j as int),
        {
            let ghost before = out@;
            if applies(rule, edges, i, j) {
                let found = conclude(rule, edges, system_user, i, j);
                if !has_link(edges, found.from_user_id.as_str(), found.to_user_id.as_str()) {
                    out.push(found);
                    assert(inferred_views(out@) =~= inferred_views(before) + seq![found@]);
                }
            }
            assert(inferred_views(out@) =~= row_start + scan_row(rule, edges@, system_user@, i as int, j + 1));
        }
        assert(inferred_views(out@) =~= start + scan_rule(rule, edges@, system_user@, i + 1));
    }
}

/// Infer new relationships using transitive rules, from a snapshot of all
/// known relationships.
///
/// Examples of inference:
/// - If A is parent of B, and B is parent of C, then A is grandparent of C
/// - If A is creator and B is sibling of A, then B is uncle/aunt to the
///   system user
///
/// Pairs whose users are already related in the snapshot are left out.
pub fn infer_relationships(edges: &Vec<RelationshipEdge>, system_user_id: &str) -> (r: Vec<
    InferredRelationship,
>)
    ensures
        inferred_views(r@) == inferences(edges@, system_user_id@),
{
    let mut inferred: Vec<InferredRelationship> = Vec::new();
    assert(inferred_views(inferred@) =~= seq![]);
    infer_by_rule(InferenceRule::CreatorSibling, edges, system_user_id, &mut inferred);
    infer_by_rule(InferenceRule::ParentOfParent, edges, system_user_id, &mut inferred);
    infer_by_rule(InferenceRule::ParentSibling, edges, system_user_id, &mut inferred);
    inferred
}

/// An inferred relationship is justified by the snapshot: its two source
/// positions exist, the rule applies to them, it is exactly what the rule
/// concludes from them, and its users were not related yet.
pub open spec fn justified(edges: Seq<RelationshipEdge>, system_user: Seq<char>, x: InferredView) -> bool {
    &&& 0 <= x.premise < edges.len()
    &&& 0 <= x.support < edges.len()
    &&& rule_applies(x.rule, edges, x.premise, x.support)
    &&& x == conclusion(x.rule, edges, system_user, x.premise, x.support)
    &&& !linked(edges, x.from, x.to)
}

proof fn lemma_row_justified(
    rule: InferenceRule,
    edges: Seq<RelationshipEdge>,
    system_user: Seq<char>,
    i: int,
    m: int,
)
    requires
        0 <= i < edges.len(),
        m <= edges.len(),
    ensures
        forall|k: int|
            0 <= k < scan_row(rule, edges, system_user, i, m).len() ==> justified(
                edges,
                system_user,
                #[trigger] scan_row(rule, edges, system_user, i, m)[k],
            ),
    decreases m,
{
    if m > 0 {
        lemma_row_justified(rule, edges, system_user, i, m - 1);
        let prev = scan_row(rule, edges, system_user, i, m - 1);
        let last = step(rule, edges, system_user, i, m - 1);
        assert forall|k: int| 0 <= k < (prev + last).len() implies justified(
            edges,
            system_user,
            #[trigger] (prev + last)[k],
        ) by {
            if k >= prev.len() {
                assert((prev + last)[k] == last[k - prev.len()]);
            } else {
                assert((prev + last)[k] == prev[k]);
            }
        }
    }
}

proof fn lemma_rule_justified(rule: InferenceRule, edges: Seq<RelationshipEdge>, system_user: Seq<char>, k: int)
    requires
        k <= edges.len(),
    ensures
        forall|q: int|
            0 <= q < scan_rule(rule, edges, system_user, k).len() ==> justified(
                edges,
                system_user,
                #[trigger] scan_rule(rule, edges, system_user, k)[q],
            ),
    decreases k,
{
    if k > 0 {
        lemma_rule_justified(rule, edges, system_user, k - 1);
        lemma_row_justified(rule, edges, system_user, k - 1, edges.len() as int);
        let prev = scan_rule(rule, edges, system_user, k - 1);
        let row = scan_row(rule, edges, system_user, k - 1, edges.len() as int);
        assert forall|q: int| 0 <= q < (prev + row).len() implies justified(
            edges,
            system_user,
            #[trigger] (prev + row)[q],
        ) by {
            if q >= prev.len() {
                assert((prev + row)[q] == row[q - prev.len()]);
            } else {
                assert((prev + row)[q] == prev[q]);
            }
        }
    }
}

/// Every relationship that the inference returns is justified by the
/// snapshot: it follows from two known relationships by one of the rules,
/// and it never repeats a pair of users who were already related.
pub proof fn lemma_inferences_justified(edges: Seq<RelationshipEdge>, system_user: Seq<char>)
    ensures
        forall|k: int|
            0 <= k < inferences(edges, system_user).len() ==> justified(
                edges,
                system_user,
                #[trigger] inferences(edges, system_user)[k],
            ),
{
    let n: int = edges.len() as int;
    let a = scan_rule(InferenceRule::CreatorSibling, edges, system_user, n);
    let b = scan_rule(InferenceRule::ParentOfParent, edges, system_user, n);
    let c = scan_rule(InferenceRule::ParentSibling, edges, system_user, n);
    lemma_rule_justified(InferenceRule::CreatorSibling, edges, system_user, n);
    lemma_rule_justified(InferenceRule::ParentOfParent, edges, system_user, n);
    lemma_rule_justified(InferenceRule::ParentSibling, edges, system_user, n);
    assert forall|k: int| 0 <= k < (a + b + c).len() implies justified(
        edges,
        system_user,
        #[trigger] (a + b + c)[k],
    ) by {
        if k < a.len() {
            assert((a + b + c)[k] == a[k]);
        } else if k < a.len() + b.len() {
            assert((a + b + c)[k] == b[k - a.len()]);
        } else {
            assert((a + b + c)[k] == c[k - a.len() - b.len()]);
        }
    }
}

proof fn lemma_row_complete(
    rule: InferenceRule,
    edges: Seq<RelationshipEdge>,
    system_user: Seq<char>,
    i: int,
    j: int,
    m: int,
)
    requires
        0 <= j < m,
        rule_applies(rule, edges, i, j),
        !linked(edges, inferred_from(rule, edges, i, j), inferred_to(rule, edges, system_user, i, j)),
    ensures
        scan_row(rule, edges, system_user, i, m).contains(conclusion(rule, edges, system_user, i, j)),
    decreases m,
{
    let prev = scan_row(rule, edges, system_user, i, m - 1);
    let last = step(rule, edges, system_user, i, m - 1);
    if m - 1 == j {
        assert((prev + last)[prev.len() as int] == conclusion(rule, edges, system_user, i, j));
    } else {
        lemma_row_complete(rule, edges, system_user, i, j, m - 1);
        let w = choose|w: int| 0 <= w < prev.len() && prev[w] == conclusion(rule, edges, system_user, i, j);
        assert((prev + last)[w] == prev[w]);
    }
}

proof fn lemma_rule_complete(
    rule: InferenceRule,
    edges: Seq<RelationshipEdge>,
    system_user: Seq<char>,
    i: int,
    j: int,
    k: int,
)
    requires
        0 <= i < k,
        0 <= j < edges.len(),
        rule_applies(rule, edges, i, j),
        !linked(edges, inferred_from(rule, edges, i, j), inferred_to(rule, edges, system_user, i, j)),
    ensures
        scan_rule(rule, edges, system_user, k).contains(conclusion(rule, edges, system_user, i, j)),
    decreases k,
{
    let target = conclusion(rule, edges, system_user, i, j);
    let prev = scan_rule(rule, edges, system_user, k - 1);
    let row = scan_row(rule, edges, system_user, k - 1, edges.len() as int);
    if k - 1 == i {
        lemma_row_complete(rule, edges, system_user, i, j, edges.len() as int);
        let w = choose|w: int| 0 <= w < row.len() && row[w] == target;
        assert((prev + row)[prev.len() + w] == row[w]);
    } else {
        lemma_rule_complete(rule, edges, system_user, i, j, k - 1);
        let w = choose|w: int| 0 <= w < prev.len() && prev[w] == target;
        assert((prev + row)[w] == prev[w]);
    }
}

/// Whenever a rule's premises hold at two positions of the snapshot and the
/// users it would relate are not related yet, the inference returns that
/// relationship: e.g. if A is parent of B and B is parent of C, then A is
/// inferred to be grandparent of C.
pub proof fn lemma_inferences_complete(
    edges: Seq<RelationshipEdge>,
    system_user: Seq<char>,
    rule: InferenceRule,
    i: int,
    j: int,
)
    requires
        0 <= i < edges.len(),
        0 <= j < edges.len(),
        rule_applies(rule, edges, i, j),
        !linked(edges, inferred_from(rule, edges, i, j), inferred_to(rule, edges, system_user, i, j)),
    ensures
        inferences(edges, system_user).contains(conclusion(rule, edges, system_user, i, j)),
{
    let n: int = edges.len() as int;
    let a = scan_rule(InferenceRule::CreatorSibling, edges, system_user, n);
    let b = scan_rule(InferenceRule::ParentOfParent, edges, system_user, n);
    let c = scan_rule(InferenceRule::ParentSibling, edges, system_user, n);
    let target = conclusion(rule, edges, system_user, i, j);
    lemma_rule_complete(rule, edges, system_user, i, j, n);
    match rule {
        InferenceRule::CreatorSibling => {
            let w = choose|w: int| 0 <= w < a.len() && a[w] == target;
            assert((a + b + c)[w] == a[w]);
        },
        InferenceRule::ParentOfParent => {
            let w = choose|w: int| 0 <= w < b.len() && b[w] == target;
            assert((a + b + c)[a.len() + w] == b[w]);
        },
        InferenceRule::ParentSibling => {
            let w = choose|w: int| 0 <= w < c.len() && c[w] == target;
            assert((a + b + c)[a.len() + b.len() + w] == c[w]);
        },
    }
}

/// Some relationship of the snapshot has exactly this model.
pub open spec fn edge_in(edges: Seq<RelationshipEdge>, e: EdgeView) -> bool {
    exists|p: int| 0 <= p < edges.len() && #[trigger] edges[p]@ == e
}

/// `later` is the snapshot `edges` after its inferences were stored: every
/// earlier relationship is still there, every new one is an inferred kind
/// (uncle or grandparent), and every inferred pair of users is now related.
pub open spec fn stores_inferences(
    edges: Seq<RelationshipEdge>,
    later: Seq<RelationshipEdge>,
    system_user: Seq<char>,
) -> bool {
    &&& forall|p: int| 0 <= p < edges.len() ==> edge_in(later, #[trigger] edges[p]@)
    &&& forall|k: int|
        0 <= k < later.len() ==> edge_in(edges, #[trigger] later[k]@) || later[k]@.kind is Uncle
            || later[k]@.kind is Grandparent
    &&& forall|m: int|
        0 <= m < inferences(edges, system_user).len() ==> linked(
            later,
            #[trigger] inferences(edges, system_user)[m].from,
            inferences(edges, system_user)[m].to,
        )
}

proof fn lemma_step_after_storing(
    rule: InferenceRule,
    edges: Seq<RelationshipEdge>,
    later: Seq<RelationshipEdge>,
    system_user: Seq<char>,
    i: int,
    j: int,
)
    requires
        stores_inferences(edges, later, system_user),
        0 <= i < later.len(),
        0 <= j < later.len(),
    ensures
        step(rule, later, system_user, i, j) == Seq::<InferredView>::empty(),
{
    if rule_applies(rule, later, i, j) {
        assert(edge_in(edges, later[i]@));
        assert(edge_in(edges, later[j]@));
        let p = choose|p: int| 0 <= p < edges.len() && #[trigger] edges[p]@ == later[i]@;
        let q = choose|q: int| 0 <= q < edges.len() && #[trigger] edges[q]@ == later[j]@;
        assert(rule_applies(rule, edges, p, q));
        let from = inferred_from(rule, edges, p, q);
        let to = inferred_to(rule, edges, system_user, p, q);
        assert(from == inferred_from(rule, later, i, j));
        assert(to == inferred_to(rule, later, system_user, i, j));
        if linked(edges, from, to) {
            let k = choose|k: int| 0 <= k < edges.len() && #[trigger] edges[k]@.from == from && edges[k]@.to == to;
            assert(edge_in(later, edges[k]@));
            let w = choose|w: int| 0 <= w < later.len() && #[trigger] later[w]@ == edges[k]@;
            assert(later[w]@.from == from && later[w]@.to == to);
        } else {
            lemma_inferences_complete(edges, system_user, rule, p, q);
            let all = inferences(edges, system_user);
            let m = choose|m: int| 0 <= m < all.len() && all[m] == conclusion(rule, edges, system_user, p, q);
            assert(linked(later, all[m].from, all[m].to));
        }
    }
}

proof fn lemma_row_after_storing(
    rule: InferenceRule,
    edges: Seq<RelationshipEdge>,
    later: Seq<RelationshipEdge>,
    system_user: Seq<char>,
    i: int,
    m: int,
)
    requires
        stores_inferences(edges, later, system_user),
        0 <= i < later.len(),
        m <= later.len(),
    ensures
        scan_row(rule, later, system_user, i, m) == Seq::<InferredView>::empty(),
    decreases m,
{
    if m > 0 {
        lemma_row_after_storing(rule, edges, later, system_user, i, m - 1);
        lemma_step_after_storing(rule, edges, later, system_user, i, m - 1);
        assert(scan_row(rule, later, system_user, i, m) =~= Seq::<InferredView>::empty());
    }
}

proof fn lemma_rule_after_storing(
    rule: InferenceRule,
    edges: Seq<RelationshipEdge>,
    later: Seq<RelationshipEdge>,
    system_user: Seq<char>,
    k: int,
)
    requires
        stores_inferences(edges, later, system_user),
        k <= later.len(),
    ensures
        scan_rule(rule, later, system_user, k) == Seq::<InferredView>::empty(),
    decreases k,
{
    if k > 0 {
        lemma_rule_after_storing(rule, edges, later, system_user, k - 1);
        lemma_row_after_storing(rule, edges, later, system_user, k - 1, later.len() as int);
        assert(scan_rule(rule, later, system_user, k) =~= Seq::<InferredView>::empty());
    }
}

/// Inference reaches a fixpoint: once the inferred relationships are stored
/// beside the relationships they came from, inferring again yields nothing.
/// Stored inferences are uncles and grandparents, which no rule reads as a
/// premise, and every pair that a rule could relate is now related.
pub proof fn lemma_inference_fixpoint(
    edges: Seq<RelationshipEdge>,
    later: Seq<RelationshipEdge>,
    system_user: Seq<char>,
)
    requires
        stores_inferences(edges, later, system_user),
    ensures
        inferences(later, system_user) == Seq::<InferredView>::empty(),
{
    let n: int = later.len() as int;
    lemma_rule_after_storing(InferenceRule::CreatorSibling, edges, later, system_user, n);
    lemma_rule_after_storing(InferenceRule::ParentOfParent, edges, later, system_user, n);
    lemma_rule_after_storing(InferenceRule::ParentSibling, edges, later, system_user, n);
    assert(inferences(later, system_user) =~= Seq::<InferredView>::empty());
}

/// The fixpoint for a snapshot that keeps the earlier relationships in
/// place and appends the inferred ones, in order.
pub proof fn lemma_inference_fixpoint_after_append(
    edges: Seq<RelationshipEdge>,
    later: Seq<RelationshipEdge>,
    system_user: Seq<char>,
)
    requires
        later.len() == edges.len() + inferences(edges, system_user).len(),
        forall|p: int| 0 <= p < edges.len() ==> #[trigger] later[p]@ == edges[p]@,
        forall|m: int|
            0 <= m < inferences(edges, system_user).len() ==> #[trigger] later[edges.len() + m]@ == (EdgeView {
                from: inferences(edges, system_user)[m].from,
                to: inferences(edges, system_user)[m].to,
                kind: inferences(edges, system_user)[m].kind,
            }),
    ensures
        inferences(later, system_user) == Seq::<InferredView>::empty(),
{
    let all = inferences(edges, system_user);
    let n: int = edges.len() as int;
    lemma_inferences_justified(edges, system_user);
    assert forall|p: int| 0 <= p < edges.len() implies edge_in(later, #[trigger] edges[p]@) by {
        assert(later[p]@ == edges[p]@);
    }
    assert forall|k: int| 0 <= k < later.len() implies edge_in(edges, #[trigger] later[k]@)
        || later[k]@.kind is Uncle || later[k]@.kind is Grandparent by {
        if k < n {
            assert(edges[k]@ == later[k]@);
        } else {
            assert(later[n + (k - n)]@.kind == all[k - n].kind);
            assert(justified(edges, system_user, all[k - n]));
        }
    }
    assert forall|m: int| 0 <= m < all.len() implies linked(later, #[trigger] all[m].from, all[m].to) by {
        assert(later[n + m]@.from == all[m].from && later[n + m]@.to == all[m].to);
    }
    lemma_inference_fixpoint(edges, later, system_user);
}

/// What each rule reads and concludes, stated over the snapshot itself:
/// every inferred relationship names two positions of the snapshot, its
/// premise and its support, and
/// - an uncle of the system user comes from a Creator premise and a Sibling
///   support from the same user; the sibling is the uncle;
/// - a grandparent comes from two Parent relationships chained through the
///   middle user;
/// - any other uncle comes from a Parent premise and a Sibling support from
///   the same parent; the sibling is the uncle of the child.
/// The relationship is marked as inferred and explains where it came from.
pub proof fn lemma_inferred_premises(edges: Seq<RelationshipEdge>, system_user: Seq<char>)
    ensures
        forall|k: int|
            #![trigger inferences(edges, system_user)[k]]
            0 <= k < inferences(edges, system_user).len() ==> {
                let x = inferences(edges, system_user)[k];
                let p = edges[x.premise]@;
                let s = edges[x.support]@;
                &&& 0 <= x.premise < edges.len()
                &&& 0 <= x.support < edges.len()
                &&& x.source == RelationshipSource::Inferred
                &&& match x.rule {
                    InferenceRule::CreatorSibling => {
                        &&& p.kind is Creator
                        &&& s.kind is Sibling
                        &&& s.from == p.from
                        &&& x.from == s.to
                        &&& x.to == system_user
                        &&& x.kind is Uncle
                        &&& x.metadata == "Inferred: "@ + s.to + " is sibling of creator "@ + p.from
                    },
                    InferenceRule::ParentOfParent => {
                        &&& p.kind is Parent
                        &&& s.kind is Parent
                        &&& s.from == p.to
                        &&& x.from == p.from
                        &&& x.to == s.to
                        &&& x.kind is Grandparent
                        &&& x.metadata == "Inferred: "@ + p.from + " is parent of "@ + p.to + ", "@ + p.to
                            + " is parent of "@ + s.to
                    },
                    InferenceRule::ParentSibling => {
                        &&& p.kind is Parent
                        &&& s.kind is Sibling
                        &&& s.from == p.from
                        &&& x.from == s.to
                        &&& x.to == p.to
                        &&& x.kind is Uncle
                        &&& x.metadata == "Inferred: "@ + s.to + " is sibling of parent "@ + p.from
                    },
                }
            },
{
    lemma_inferences_justified(edges, system_user);
}

/// Only siblings become uncles: a snapshot without any Sibling relationship
/// yields no inferred uncle, and one without any Parent relationship yields
/// no grandparent.
pub proof fn lemma_uncles_need_siblings(edges: Seq<RelationshipEdge>, system_user: Seq<char>)
    ensures
        (forall|k: int| 0 <= k < edges.len() ==> !(#[trigger] edges[k]@.kind is Sibling)) ==> forall|m: int|
            0 <= m < inferences(edges, system_user).len() ==> !(#[trigger] inferences(edges, system_user)[m].kind is Uncle),
        (forall|k: int| 0 <= k < edges.len() ==> !(#[trigger] edges[k]@.kind is Parent)) ==> forall|m: int|
            0 <= m < inferences(edges, system_user).len() ==> !(#[trigger] inferences(edges, system_user)[m].kind is Grandparent),
{
    lemma_inferred_premises(edges, system_user);
    if forall|k: int| 0 <= k < edges.len() ==> !(#[trigger] edges[k]@.kind is Sibling) {
        assert forall|m: int| 0 <= m < inferences(edges, system_user).len() implies !(
        #[trigger] inferences(edges, system_user)[m].kind is Uncle) by {
            let x = inferences(edges, system_user)[m];
            assert(!(edges[x.support]@.kind is Sibling));
        }
    }
    if forall|k: int| 0 <= k < edges.len() ==> !(#[trigger] edges[k]@.kind is Parent) {
        assert forall|m: int| 0 <= m < inferences(edges, system_user).len() implies !(
        #[trigger] inferences(edges, system_user)[m].kind is Grandparent) by {
            let x = inferences(edges, system_user)[m];
            assert(!(edges[x.premise]@.kind is Parent));
        }
    }
}

/// The stored text of each relationship kind is its own lowercase name,
/// and each name reads back as its kind.
pub proof fn lemma_kind_name_table()
    ensures
        kind_name(RelationKind::Parent) == "parent"@ && parse_kind("parent"@) == RelationKind::Parent,
        kind_name(RelationKind::Child) == "child"@ && parse_kind("child"@) == RelationKind::Child,
        kind_name(RelationKind::Sibling) == "sibling"@ && parse_kind("sibling"@) == RelationKind::Sibling,
        kind_name(RelationKind::Spouse) == "spouse"@ && parse_kind("spouse"@) == RelationKind::Spouse,
        kind_name(RelationKind::Grandparent) == "grandparent"@ && parse_kind("grandparent"@)
            == RelationKind::Grandparent,
        kind_name(RelationKind::Grandchild) == "grandchild"@ && parse_kind("grandchild"@)
            == RelationKind::Grandchild,
        kind_name(RelationKind::Uncle) == "uncle"@ && parse_kind("uncle"@) == RelationKind::Uncle,
        kind_name(RelationKind::Aunt) == "aunt"@ && parse_kind("aunt"@) == RelationKind::Aunt,
        kind_name(RelationKind::Nephew) == "nephew"@ && parse_kind("nephew"@) == RelationKind::Nephew,
        kind_name(RelationKind::Niece) == "niece"@ && parse_kind("niece"@) == RelationKind::Niece,
        kind_name(RelationKind::Cousin) == "cousin"@ && parse_kind("cousin"@) == RelationKind::Cousin,
        kind_name(RelationKind::Friend) == "friend"@ && parse_kind("friend"@) == RelationKind::Friend,
        kind_name(RelationKind::Colleague) == "colleague"@ && parse_kind("colleague"@) == RelationKind::Colleague,
        kind_name(RelationKind::Mentor) == "mentor"@ && parse_kind("mentor"@) == RelationKind::Mentor,
        kind_name(RelationKind::Student) == "student"@ && parse_kind("student"@) == RelationKind::Student,
        kind_name(RelationKind::Creator) == "creator"@ && parse_kind("creator"@) == RelationKind::Creator,
        kind_name(RelationKind::Administrator) == "administrator"@ && parse_kind("administrator"@)
            == RelationKind::Administrator,
        kind_name(RelationKind::User) == "user"@ && parse_kind("user"@) == RelationKind::User,
        forall|label: Seq<char>| #[trigger] kind_name(RelationKind::Custom(label)) == "custom:"@ + label,
{
    lemma_kind_name_roundtrip(RelationKind::Parent);
    lemma_kind_name_roundtrip(RelationKind::Child);
    lemma_kind_name_roundtrip(RelationKind::Sibling);
    lemma_kind_name_roundtrip(RelationKind::Spouse);
    lemma_kind_name_roundtrip(RelationKind::Grandparent);
    lemma_kind_name_roundtrip(RelationKind::Grandchild);
    lemma_kind_name_roundtrip(RelationKind::Uncle);
    lemma_kind_name_roundtrip(RelationKind::Aunt);
    lemma_kind_name_roundtrip(RelationKind::Nephew);
    lemma_kind_name_roundtrip(RelationKind::Niece);
    lemma_kind_name_roundtrip(RelationKind::Cousin);
    lemma_kind_name_roundtrip(RelationKind::Friend);
    lemma_kind_name_roundtrip(RelationKind::Colleague);
    lemma_kind_name_roundtrip(RelationKind::Mentor);
    lemma_kind_name_roundtrip(RelationKind::Student);
    lemma_kind_name_roundtrip(RelationKind::Creator);
    lemma_kind_name_roundtrip(RelationKind::Administrator);
    lemma_kind_name_roundtrip(RelationKind::User);
}

/// Text with the `custom:` prefix reads as a custom kind labelled with the
/// rest of the text, and other text that names no kind reads as a custom
/// kind labelled with all of it.
pub proof fn lemma_custom_text(label: Seq<char>, s: Seq<char>)
    ensures
        parse_kind("custom:"@ + label) == RelationKind::Custom(label),
        parse_kind(s) is Custom && !"custom:"@.is_prefix_of(s) ==> parse_kind(s) == RelationKind::Custom(s),
{
    lemma_custom_name_roundtrip(label);
}

/// The inverse of each kind: family and mentoring relationships swap
/// sides, symmetric relationships are their own inverse, and system and
/// custom relationships have none.
pub proof fn lemma_inverse_table(label: Seq<char>)
    ensures
        inverse_kind(RelationKind::Parent) == Some(RelationKind::Child),
        inverse_kind(RelationKind::Child) == Some(RelationKind::Parent),
        inverse_kind(RelationKind::Grandparent) == Some(RelationKind::Grandchild),
        inverse_kind(RelationKind::Grandchild) == Some(RelationKind::Grandparent),
        inverse_kind(RelationKind::Uncle) == Some(RelationKind::Nephew),
        inverse_kind(RelationKind::Nephew) == Some(RelationKind::Uncle),
        inverse_kind(RelationKind::Aunt) == Some(RelationKind::Niece),
        inverse_kind(RelationKind::Niece) == Some(RelationKind::Aunt),
        inverse_kind(RelationKind::Mentor) == Some(RelationKind::Student),
        inverse_kind(RelationKind::Student) == Some(RelationKind::Mentor),
        inverse_kind(RelationKind::Sibling) == Some(RelationKind::Sibling),
        inverse_kind(RelationKind::Spouse) == Some(RelationKind::Spouse),
        inverse_kind(RelationKind::Friend) == Some(RelationKind::Friend),
        inverse_kind(RelationKind::Colleague) == Some(RelationKind::Colleague),
        inverse_kind(RelationKind::Cousin) == Some(RelationKind::Cousin),
        inverse_kind(RelationKind::Creator) is None,
        inverse_kind(RelationKind::Administrator) is None,
        inverse_kind(RelationKind::User) is None,
        inverse_kind(RelationKind::Custom(label)) is None,
{
}

/// The stored text of each source, and how text reads back: the three
/// names read as their sources, anything else as explicit.
pub proof fn lemma_source_name_table(s: Seq<char>)
    ensures
        source_name(RelationshipSource::Explicit) == "explicit"@,
        source_name(RelationshipSource::Inferred) == "inferred"@,
        source_name(RelationshipSource::Configuration) == "configuration"@,
        parse_source("inferred"@) == RelationshipSource::Inferred,
        parse_source("configuration"@) == RelationshipSource::Configuration,
        s != "inferred"@ && s != "configuration"@ ==> parse_source(s) == RelationshipSource::Explicit,
{
    lemma_source_name_roundtrip(RelationshipSource::Inferred);
    lemma_source_name_roundtrip(RelationshipSource::Configuration);
}

/// The words that follow a description: nothing when certain,
/// ` (likely)` and ` (possibly)` otherwise.
pub proof fn lemma_certainty_note_table()
    ensures
        certainty_note(Certainty::Certain) == ""@,
        certainty_note(Certainty::Likely) == " (likely)"@,
        certainty_note(Certainty::Possible) == " (possibly)"@,
{
}

} // verus!
