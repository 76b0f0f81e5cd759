//! Dimensions of a Minecraft world, and their numeric and string identifiers
//! in Java and Bedrock Edition.

use vstd::prelude::*;

use crate::text::{boxed_str_from, str_eq};

verus! {

/// A dimension of a Minecraft world, such as the Overworld.
#[derive(Debug, Clone, PartialEq, Eq, PartialOrd, Ord, Hash)]
pub enum Dimension {
    Vanilla(VanillaDimension),
    CustomNumeric(CustomDimensionNumber),
    CustomNamed(CustomDimensionName),
}

impl Dimension {
    /// Get a `NumericDimension` if this dimension's numeric representation is known.
    pub fn numeric(&self) -> (res: Option<NumericDimension>)
        ensures
            res == match *self {
                Dimension::Vanilla(v) => Some(NumericDimension::Vanilla(v)),
                Dimension::CustomNumeric(n) => Some(NumericDimension::CustomNumeric(n)),
                Dimension::CustomNamed(_) => None::<NumericDimension>,
            },
    {
        match self {
            Dimension::Vanilla(v) => Some(NumericDimension::Vanilla(*v)),
            Dimension::CustomNumeric(n) => Some(NumericDimension::CustomNumeric(*n)),
            Dimension::CustomNamed(_) => None,
        }
    }

    /// Get a `NamedDimension` if this dimension's string representation is known.
    pub fn named(self) -> (res: Option<NamedDimension>)
        ensures
            res == match self {
                Dimension::Vanilla(v) => Some(NamedDimension::Vanilla(v)),
                Dimension::CustomNumeric(_) => None::<NamedDimension>,
                Dimension::CustomNamed(n) => Some(NamedDimension::CustomNamed(n)),
            },
    {
        match self {
            Dimension::Vanilla(v) => Some(NamedDimension::Vanilla(v)),
            Dimension::CustomNumeric(_) => None,
            Dimension::CustomNamed(n) => Some(NamedDimension::CustomNamed(n)),
        }
    }
}

/// A dimension of a Minecraft world with a numeric identifier.
#[derive(Debug, Clone, Copy, PartialEq, Eq, PartialOrd, Ord, Hash, Structural)]
pub enum NumericDimension {
    Vanilla(VanillaDimension),
    CustomNumeric(CustomDimensionNumber),
}

impl NumericDimension {
    /// The dimension that a Java Edition numeric ID stands for.
    pub open spec fn spec_from_java_numeric(id: i32) -> NumericDimension {
        match VanillaDimension::spec_try_from_java_numeric(id) {
            Some(v) => NumericDimension::Vanilla(v),
            None => NumericDimension::CustomNumeric(CustomDimensionNumber(id)),
        }
    }

    /// The dimension that a Bedrock Edition numeric ID stands for.
    pub open spec fn spec_from_bedrock_numeric(id: u32) -> NumericDimension {
        match VanillaDimension::spec_try_from_bedrock_numeric(id) {
            Some(v) => NumericDimension::Vanilla(v),
            None => NumericDimension::CustomNumeric(CustomDimensionNumber(id as i32)),
        }
    }

    /// The Java Edition numeric ID of this dimension.
    pub open spec fn spec_to_java_numeric(self) -> i32 {
        match self {
            NumericDimension::Vanilla(v) => v.spec_to_java_numeric(),
            NumericDimension::CustomNumeric(custom) => custom.0,
        }
    }

    /// The Bedrock Edition numeric ID of this dimension.
    pub open spec fn spec_to_bedrock_numeric(self) -> u32 {
        match self {
            NumericDimension::Vanilla(v) => v.spec_to_bedrock_numeric(),
            NumericDimension::CustomNumeric(custom) => custom.0 as u32,
        }
    }

    pub fn from_java_numeric(id: i32) -> (res: Self)
        ensures
            res == Self::spec_from_java_numeric(id),
    {
        match VanillaDimension::try_from_java_numeric(id) {
            Some(v) => NumericDimension::Vanilla(v),
            None => NumericDimension::CustomNumeric(CustomDimensionNumber(id)),
        }
    }

    pub fn from_bedrock_numeric(id: u32) -> (res: Self)
        ensures
            res == Self::spec_from_bedrock_numeric(id),
    {
        match VanillaDimension::try_from_bedrock_numeric(id) {
            Some(v) => NumericDimension::Vanilla(v),
            None => NumericDimension::CustomNumeric(CustomDimensionNumber(id as i32)),
        }
    }

    pub fn to_java_numeric(self) -> (res: i32)
        ensures
            res == self.spec_to_java_numeric(),
    {
        match self {
            NumericDimension::Vanilla(v) => v.to_java_numeric(),
            NumericDimension::CustomNumeric(custom) => custom.0,
        }
    }

    pub fn to_bedrock_numeric(self) -> (res: u32)
        ensures
            res == self.spec_to_bedrock_numeric(),
    {
        match self {
            NumericDimension::Vanilla(v) => v.to_bedrock_numeric(),
            NumericDimension::CustomNumeric(custom) => custom.0 as u32,
        }
    }
}

/// A dimension of a Minecraft world with a string name.
#[derive(Debug, Clone, PartialEq, Eq, PartialOrd, Ord, Hash)]
pub enum NamedDimension {
    Vanilla(VanillaDimension),
    CustomNamed(CustomDimensionName),
}

impl NamedDimension {
    /// The characters of this dimension's Java Edition name.
    pub open spec fn spec_java_name(self) -> Seq<char> {
        match self {
            NamedDimension::Vanilla(v) => v.spec_java_name(),
            NamedDimension::CustomNamed(custom) => custom.0@,
        }
    }

    /// The characters of this dimension's Bedrock Edition name.
    pub open spec fn spec_bedrock_name(self) -> Seq<char> {
        match self {
            NamedDimension::Vanilla(v) => v.spec_bedrock_name(),
            NamedDimension::CustomNamed(custom) => custom.0@,
        }
    }

    pub fn from_java_name(name: &str) -> (res: Self)
        ensures
            match VanillaDimension::spec_try_from_java_name(name@) {
                Some(v) => res == NamedDimension::Vanilla(v),
                None => res matches NamedDimension::CustomNamed(custom) && custom.0@ == name@,
            },
    {
        match VanillaDimension::try_from_java_name(name) {
            Some(v) => NamedDimension::Vanilla(v),
            None => NamedDimension::CustomNamed(CustomDimensionName(boxed_str_from(name))),
        }
    }

    pub fn from_bedrock_name(name: &str) -> (res: Self)
        ensures
            match VanillaDimension::spec_try_from_bedrock_name(name@) {
                Some(v) => res == NamedDimension::Vanilla(v),
                None => res matches NamedDimension::CustomNamed(custom) && custom.0@ == name@,
            },
    {
        match VanillaDimension::try_from_bedrock_name(name) {
            Some(v) => NamedDimension::Vanilla(v),
            None => NamedDimension::CustomNamed(CustomDimensionName(boxed_str_from(name))),
        }
    }

    pub fn into_java_name(self) -> (res: Box<str>)
        ensures
            res@ == self.spec_java_name(),
    {
        match self {
            NamedDimension::Vanilla(v) => boxed_str_from(v.to_java_name()),
            NamedDimension::CustomNamed(custom) => custom.0,
        }
    }

    pub fn into_bedrock_name(self) -> (res: Box<str>)
        ensures
            res@ == self.spec_bedrock_name(),
    {
        match self {
            NamedDimension::Vanilla(v) => boxed_str_from(v.to_bedrock_name()),
            NamedDimension::CustomNamed(custom) => custom.0,
        }
    }

    pub fn as_java_name(&self) -> (res: &str)
        ensures
            res@ == self.spec_java_name(),
    {
        match self {
            NamedDimension::Vanilla(v) => v.to_java_name(),
            NamedDimension::CustomNamed(custom) => &*custom.0,
        }
    }

    pub fn as_bedrock_name(&self) -> (res: &str)
        ensures
            res@ == self.spec_bedrock_name(),
    {
        match self {
            NamedDimension::Vanilla(v) => v.to_bedrock_name(),
            NamedDimension::CustomNamed(custom) => &*custom.0,
        }
    }
}

/// One of Minecraft's three vanilla dimensions.
#[derive(Debug, Clone, Copy, PartialEq, Eq, PartialOrd, Ord, Hash, Structural)]
pub enum VanillaDimension {
    Overworld,
    Nether,
    End,
}

impl VanillaDimension {
    /// The Java Edition name of this dimension.
    pub open spec fn spec_java_name(self) -> Seq<char> {
        match self {
            VanillaDimension::Overworld => "overworld"@,
            VanillaDimension::Nether => "the_nether"@,
            VanillaDimension::End => "the_end"@,
        }
    }

    /// The Bedrock Edition name of this dimension.
    pub open spec fn spec_bedrock_name(self) -> Seq<char> {
        match self {
            VanillaDimension::Overworld => "Overworld"@,
            VanillaDimension::Nether => "Nether"@,
            VanillaDimension::End => "TheEnd"@,
        }
    }

    pub open spec fn spec_to_java_numeric(self) -> i32 {
        match self {
            VanillaDimension::Overworld => 0i32,
            VanillaDimension::Nether => -1i32,
            VanillaDimension::End => 1i32,
        }
    }

    pub open spec fn spec_to_bedrock_numeric(self) -> u32 {
        match self {
            VanillaDimension::Overworld => 0,
            VanillaDimension::Nether => 1,
            VanillaDimension::End => 2,
        }
    }

    /// The vanilla dimension with the given Java Edition name, checked in the order
    /// Overworld, Nether, End.
    pub open spec fn spec_try_from_java_name(name: Seq<char>) -> Option<VanillaDimension> {
        if name == VanillaDimension::Overworld.spec_java_name() {
            Some(VanillaDimension::Overworld)
        } else if name == VanillaDimension::Nether.spec_java_name() {
            Some(VanillaDimension::Nether)
        } else if name == VanillaDimension::End.spec_java_name() {
            Some(VanillaDimension::End)
        } else {
            None
        }
    }

    /// The vanilla dimension with the given Bedrock Edition name, checked in the order
    /// Overworld, Nether, End.
    pub open spec fn spec_try_from_bedrock_name(name: Seq<char>) -> Option<VanillaDimension> {
        if name == VanillaDimension::Overworld.spec_bedrock_name() {
            Some(VanillaDimension::Overworld)
        } else if name == VanillaDimension::Nether.spec_bedrock_name() {
            Some(VanillaDimension::Nether)
        } else if name == VanillaDimension::End.spec_bedrock_name() {
            Some(VanillaDimension::End)
        } else {
            None
        }
    }

    pub open spec fn spec_try_from_java_numeric(id: i32) -> Option<VanillaDimension> {
        if id == 0 {
            Some(VanillaDimension::Overworld)
        } else if id == -1 {
            Some(VanillaDimension::Nether)
        } else if id == 1 {
            Some(VanillaDimension::End)
        } else {
            None
        }
    }

    pub open spec fn spec_try_from_bedrock_numeric(id: u32) -> Option<VanillaDimension> {
        if id == 0 {
            Some(VanillaDimension::Overworld)
        } else if id == 1 {
            Some(VanillaDimension::Nether)
        } else if id == 2 {
            Some(VanillaDimension::End)
        } else {
            None
        }
    }

    pub fn try_from_java_name(name: &str) -> (res: Option<Self>)
        ensures
            res == Self::spec_try_from_java_name(name@),
    {
        if str_eq(name, "overworld") {
            Some(VanillaDimension::Overworld)
        } else if str_eq(name, "the_nether") {
            Some(VanillaDimension::Nether)
        } else if str_eq(name, "the_end") {
            Some(VanillaDimension::End)
        } else {
            None
        }
    }

    pub fn try_from_java_numeric(id: i32) -> (res: Option<Self>)
        ensures
            res == Self::spec_try_from_java_numeric(id),
    {
        match id {
            0 => Some(VanillaDimension::Overworld),
            -1 => Some(VanillaDimension::Nether),
            1 => Some(VanillaDimension::End),
            _ => None,
        }
    }

    pub fn try_from_bedrock_name(name: &str) -> (res: Option<Self>)
        ensures
            res == Self::spec_try_from_bedrock_name(name@),
    {
        if str_eq(name, "Overworld") {
            Some(VanillaDimension::Overworld)
        } else if str_eq(name, "Nether") {
            Some(VanillaDimension::Nether)
        } else if str_eq(name, "TheEnd") {
            Some(VanillaDimension::End)
        } else {
            None
        }
    }

    pub fn try_from_bedrock_numeric(id: u32) -> (res: Option<Self>)
        ensures
            res == Self::spec_try_from_bedrock_numeric(id),
    {
        match id {
            0 => Some(VanillaDimension::Overworld),
            1 => Some(VanillaDimension::Nether),
            2 => Some(VanillaDimension::End),
            _ => None,
        }
    }

    pub fn to_java_name(self) -> (res: &'static str)
        ensures
            res@ == self.spec_java_name(),
    {
        match self {
            VanillaDimension::Overworld => "overworld",
            VanillaDimension::Nether => "the_nether",
            VanillaDimension::End => "the_end",
        }
    }

    pub fn to_java_numeric(self) -> (res: i32)
        ensures
            res == self.spec_to_java_numeric(),
    {
        match self {
            VanillaDimension::Overworld => 0,
            VanillaDimension::Nether => -1,
            VanillaDimension::End => 1,
        }
    }

    pub fn to_bedrock_name(self) -> (res: &'static str)
        ensures
            res@ == self.spec_bedrock_name(),
    {
        match self {
            VanillaDimension::Overworld => "Overworld",
            VanillaDimension::Nether => "Nether",
            VanillaDimension::End => "TheEnd",
        }
    }

    pub fn to_bedrock_numeric(self) -> (res: u32)
        ensures
            res == self.spec_to_bedrock_numeric(),
    {
        match self {
            VanillaDimension::Overworld => 0,
            VanillaDimension::Nether => 1,
            VanillaDimension::End => 2,
        }
    }
}

/// The numeric ID of a custom dimension; used in Bedrock's LevelDB keys.
#[derive(Debug, Clone, Copy, PartialEq, Eq, PartialOrd, Ord, Hash, Structural)]
pub struct CustomDimensionNumber(pub i32);

/// The name of a custom dimension; used as the ID for custom Java dimensions.
#[derive(Debug, Clone, PartialEq, Eq, PartialOrd, Ord, Hash)]
pub struct CustomDimensionName(pub Box<str>);

/// The names of the three vanilla dimensions are pairwise distinct, in both editions.
proof fn lemma_vanilla_names_distinct()
    ensures
        "overworld"@ != "the_nether"@,
        "overworld"@ != "the_end"@,
        "the_nether"@ != "the_end"@,
        "Overworld"@ != "Nether"@,
        "Overworld"@ != "TheEnd"@,
        "Nether"@ != "TheEnd"@,
{
    reveal_strlit("overworld");
    reveal_strlit("the_nether");
    reveal_strlit("the_end");
    reveal_strlit("Overworld");
    reveal_strlit("Nether");
    reveal_strlit("TheEnd");
    assert("overworld"@.len() != "the_nether"@.len());
    assert("overworld"@[1] != "the_end"@[1]);
    assert("the_nether"@.len() != "the_end"@.len());
    assert("Overworld"@.len() != "Nether"@.len());
    assert("Overworld"@.len() != "TheEnd"@.len());
    assert("Nether"@[0] != "TheEnd"@[0]);
}

/// Reading the Java Edition numeric ID of a vanilla dimension gives back that dimension.
pub proof fn lemma_vanilla_java_numeric_roundtrip(v: VanillaDimension)
    ensures
        VanillaDimension::spec_try_from_java_numeric(v.spec_to_java_numeric()) == Some(v),
{
}

/// Reading the Bedrock Edition numeric ID of a vanilla dimension gives back that dimension.
pub proof fn lemma_vanilla_bedrock_numeric_roundtrip(v: VanillaDimension)
    ensures
        VanillaDimension::spec_try_from_bedrock_numeric(v.spec_to_bedrock_numeric()) == Some(v),
{
}

/// Reading the Java Edition name of a vanilla dimension gives back that dimension.
pub proof fn lemma_vanilla_java_name_roundtrip(v: VanillaDimension)
    ensures
        VanillaDimension::spec_try_from_java_name(v.spec_java_name()) == Some(v),
{
    lemma_vanilla_names_distinct();
}

/// Reading the Bedrock Edition name of a vanilla dimension gives back that dimension.
pub proof fn lemma_vanilla_bedrock_name_roundtrip(v: VanillaDimension)
    ensures
        VanillaDimension::spec_try_from_bedrock_name(v.spec_bedrock_name()) == Some(v),
{
    lemma_vanilla_names_distinct();
}

/// Any Java Edition numeric ID is read as a dimension whose ID is that same number.
pub proof fn lemma_java_numeric_id_preserved(id: i32)
    ensures
        NumericDimension::spec_from_java_numeric(id).spec_to_java_numeric() == id,
{
}

/// Any Bedrock Edition numeric ID is read as a dimension whose ID is that same number.
pub proof fn lemma_bedrock_numeric_id_preserved(id: u32)
    ensures
        NumericDimension::spec_from_bedrock_numeric(id).spec_to_bedrock_numeric() == id,
{
    assert((id as i32) as u32 == id) by (bit_vector);
}

/// Writing a numeric dimension as a Bedrock Edition ID and reading it back gives the same
/// dimension, unless it is a custom dimension whose number is that of a vanilla dimension.
pub proof fn lemma_bedrock_numeric_dimension_roundtrip(d: NumericDimension)
    requires
        d matches NumericDimension::CustomNumeric(c) ==> !(0 <= c.0 <= 2),
    ensures
        NumericDimension::spec_from_bedrock_numeric(d.spec_to_bedrock_numeric()) == d,
{
    if let NumericDimension::CustomNumeric(c) = d {
        let n = c.0;
        assert(((n as u32) as i32) == n) by (bit_vector);
        assert(!(0 <= n <= 2) ==> !(n as u32 <= 2)) by (bit_vector);
    }
}

/// Writing a numeric dimension as a Java Edition ID and reading it back gives the same
/// dimension, unless it is a custom dimension whose number is that of a vanilla dimension.
pub proof fn lemma_java_numeric_dimension_roundtrip(d: NumericDimension)
    requires
        d matches NumericDimension::CustomNumeric(c) ==> !(-1 <= c.0 <= 1),
    ensures
        NumericDimension::spec_from_java_numeric(d.spec_to_java_numeric()) == d,
{
}

/// Any Java Edition name is read as a dimension whose Java Edition name is that same name.
pub proof fn lemma_java_name_preserved(name: Seq<char>)
    ensures
        match VanillaDimension::spec_try_from_java_name(name) {
            Some(v) => v.spec_java_name() == name,
            None => true,
        },
{
}

/// Any Bedrock Edition name is read as a dimension whose Bedrock Edition name is that same name.
pub proof fn lemma_bedrock_name_preserved(name: Seq<char>)
    ensures
        match VanillaDimension::spec_try_from_bedrock_name(name) {
            Some(v) => v.spec_bedrock_name() == name,
            None => true,
        },
{
}


/// The vanilla dimensions' names and numeric IDs are the game's: in Java Edition `overworld` 0,
/// `the_nether` -1 and `the_end` 1; in Bedrock Edition `Overworld` 0, `Nether` 1 and `TheEnd` 2.
/// No other name or ID is a vanilla dimension.
pub proof fn lemma_vanilla_dimension_ids()
    ensures
        VanillaDimension::Overworld.spec_java_name() == "overworld"@,
        VanillaDimension::Nether.spec_java_name() == "the_nether"@,
        VanillaDimension::End.spec_java_name() == "the_end"@,
        VanillaDimension::Overworld.spec_bedrock_name() == "Overworld"@,
        VanillaDimension::Nether.spec_bedrock_name() == "Nether"@,
        VanillaDimension::End.spec_bedrock_name() == "TheEnd"@,
        VanillaDimension::Overworld.spec_to_java_numeric() == 0i32,
        VanillaDimension::Nether.spec_to_java_numeric() == -1i32,
        VanillaDimension::End.spec_to_java_numeric() == 1i32,
        VanillaDimension::Overworld.spec_to_bedrock_numeric() == 0u32,
        VanillaDimension::Nether.spec_to_bedrock_numeric() == 1u32,
        VanillaDimension::End.spec_to_bedrock_numeric() == 2u32,
        VanillaDimension::spec_try_from_java_name("overworld"@) == Some(VanillaDimension::Overworld),
        VanillaDimension::spec_try_from_java_name("the_nether"@) == Some(VanillaDimension::Nether),
        VanillaDimension::spec_try_from_java_name("the_end"@) == Some(VanillaDimension::End),
        VanillaDimension::spec_try_from_bedrock_name("Overworld"@) == Some(VanillaDimension::Overworld),
        VanillaDimension::spec_try_from_bedrock_name("Nether"@) == Some(VanillaDimension::Nether),
        VanillaDimension::spec_try_from_bedrock_name("TheEnd"@) == Some(VanillaDimension::End),
        VanillaDimension::spec_try_from_java_numeric(0i32) == Some(VanillaDimension::Overworld),
        VanillaDimension::spec_try_from_java_numeric(-1i32) == Some(VanillaDimension::Nether),
        VanillaDimension::spec_try_from_java_numeric(1i32) == Some(VanillaDimension::End),
        VanillaDimension::spec_try_from_bedrock_numeric(0u32) == Some(VanillaDimension::Overworld),
        VanillaDimension::spec_try_from_bedrock_numeric(1u32) == Some(VanillaDimension::Nether),
        VanillaDimension::spec_try_from_bedrock_numeric(2u32) == Some(VanillaDimension::End),
        forall|name: Seq<char>|
            name != "overworld"@ && name != "the_nether"@ && name != "the_end"@
                ==> #[trigger] VanillaDimension::spec_try_from_java_name(name) is None,
        forall|name: Seq<char>|
            name != "Overworld"@ && name != "Nether"@ && name != "TheEnd"@
                ==> #[trigger] VanillaDimension::spec_try_from_bedrock_name(name) is None,
        forall|id: i32|
            id != 0 && id != -1 && id != 1 ==> #[trigger] VanillaDimension::spec_try_from_java_numeric(id) is None,
        forall|id: u32| id > 2 ==> #[trigger] VanillaDimension::spec_try_from_bedrock_numeric(id) is None,
{
    lemma_vanilla_java_name_roundtrip(VanillaDimension::Overworld);
    lemma_vanilla_java_name_roundtrip(VanillaDimension::Nether);
    lemma_vanilla_java_name_roundtrip(VanillaDimension::End);
    lemma_vanilla_bedrock_name_roundtrip(VanillaDimension::Overworld);
    lemma_vanilla_bedrock_name_roundtrip(VanillaDimension::Nether);
    lemma_vanilla_bedrock_name_roundtrip(VanillaDimension::End);
}

} // verus!
