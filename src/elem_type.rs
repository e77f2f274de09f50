//! Element types shared by the nodes: attributes, access modes, value
//! sources and their textual forms.
use vstd::prelude::*;

use crate::text::str_eq;
use crate::store::NodeId;

verus! {

#[derive(Debug, Clone, Copy, PartialEq, Eq, Structural)]
pub enum NameSpace {
    Standard,
    Custom,
}

#[derive(Debug, Clone, Copy, PartialEq, Eq, Structural)]
pub enum StandardNameSpace {
    /// Written `None` in a description file.
    NoNameSpace,
    IIDC,
    GEV,
    CL,
    USB,
}

#[derive(Debug, Clone, Copy, PartialEq, Eq, Structural)]
pub enum Visibility {
    Beginner,
    Expert,
    Guru,
    Invisible,
}

#[derive(Debug, Clone, Copy, PartialEq, Eq, Structural)]
pub enum MergePriority {
    High,
    Mid,
    Low,
}

#[derive(Debug, Clone, Copy, PartialEq, Eq, Structural)]
pub enum AccessMode {
    RO,
    WO,
    RW,
}

#[derive(Debug, Clone, Copy, PartialEq, Eq, Structural)]
pub enum IntegerRepresentation {
    Linear,
    Logarithmic,
    Boolean,
    PureNumber,
    HexNumber,
    IpV4Address,
    MacAddress,
}

#[derive(Debug, Clone, Copy, PartialEq, Eq, Structural)]
pub enum FloatRepresentation {
    Linear,
    Logarithmic,
    PureNumber,
}

#[derive(Debug, Clone, Copy, PartialEq, Eq, Structural)]
pub enum Slope {
    Increasing,
    Decreasing,
    Varying,
    Automatic,
}

#[derive(Debug, Clone, Copy, PartialEq, Eq, Structural)]
pub enum DisplayNotation {
    Automatic,
    Fixed,
    Scientific,
}

/// How writes to a register meet the cache.
#[derive(Debug, Clone, Copy, PartialEq, Eq, Structural)]
pub enum CachingMode {
    /// Write the device, then keep the written bytes in the cache.
    WriteThrough,
    /// Write the device, then drop the cached bytes.
    WriteAround,
    /// Bypass the cache.
    NoCache,
}

/// An immediate value, or the node whose value supplies it.
#[derive(Debug, Clone, Copy, PartialEq, Eq, Structural)]
pub enum ImmOrPNode<T> {
    Imm(T),
    PNode(NodeId),
}

/// A value read from `p_value`; writes go to `p_value` and to every copy.
#[derive(Debug, Clone, PartialEq, Eq)]
pub struct PValue {
    pub p_value: NodeId,
    pub p_value_copies: Vec<NodeId>,
}

/// One value of an indexed source, chosen when the index node reads `index`.
#[derive(Debug, Clone, Copy, PartialEq, Eq, Structural)]
pub struct ValueIndexed<T> {
    pub index: i64,
    pub indexed: ImmOrPNode<T>,
}

/// A value chosen by the value of the node `p_index`.
#[derive(Debug, Clone, PartialEq, Eq)]
pub struct PIndex<T> {
    pub p_index: NodeId,
    pub value_indexed: Vec<ValueIndexed<T>>,
    pub value_default: ImmOrPNode<T>,
}

/// Where a node's value comes from.
#[derive(Debug, Clone, PartialEq, Eq)]
pub enum ValueKind<T> {
    Value(T),
    PValue(PValue),
    PIndex(PIndex<T>),
}

/// A value with the name under which a formula refers to it.
#[derive(Debug, Clone, PartialEq, Eq)]
pub struct NamedValue<T> {
    pub name: String,
    pub value: T,
}

impl Default for NameSpace {
    fn default() -> (r: Self)
        ensures
            r == NameSpace::Custom,
    {
        NameSpace::Custom
    }
}

impl Default for Visibility {
    fn default() -> (r: Self)
        ensures
            r == Visibility::Beginner,
    {
        Visibility::Beginner
    }
}

impl Default for MergePriority {
    fn default() -> (r: Self)
        ensures
            r == MergePriority::Mid,
    {
        MergePriority::Mid
    }
}

impl Default for IntegerRepresentation {
    fn default() -> (r: Self)
        ensures
            r == IntegerRepresentation::PureNumber,
    {
        IntegerRepresentation::PureNumber
    }
}

impl Default for FloatRepresentation {
    fn default() -> (r: Self)
        ensures
            r == FloatRepresentation::PureNumber,
    {
        FloatRepresentation::PureNumber
    }
}

impl Default for Slope {
    fn default() -> (r: Self)
        ensures
            r == Slope::Automatic,
    {
        Slope::Automatic
    }
}

impl Default for DisplayNotation {
    fn default() -> (r: Self)
        ensures
            r == DisplayNotation::Automatic,
    {
        DisplayNotation::Automatic
    }
}

impl Default for CachingMode {
    fn default() -> (r: Self)
        ensures
            r == CachingMode::WriteThrough,
    {
        CachingMode::WriteThrough
    }
}

/// The NameSpace that its name in a description file stands for.
pub open spec fn name_space_text(s: Seq<char>) -> Option<NameSpace> {
    if s == "Standard"@ {
        Some(NameSpace::Standard)
    } else if s == "Custom"@ {
        Some(NameSpace::Custom)
    } else {
        None
    }
}

impl NameSpace {
    pub fn from_text(text: &str) -> (r: Option<NameSpace>)
        ensures
            r == name_space_text(text@),
    {
        if str_eq(text, "Standard") {
            Some(NameSpace::Standard)
        } else if str_eq(text, "Custom") {
            Some(NameSpace::Custom)
        } else {
            None
        }
    }
}

/// The StandardNameSpace that its name in a description file stands for.
pub open spec fn standard_name_space_text(s: Seq<char>) -> Option<StandardNameSpace> {
    if s == "None"@ {
        Some(StandardNameSpace::NoNameSpace)
    } else if s == "IIDC"@ {
        Some(StandardNameSpace::IIDC)
    } else if s == "GEV"@ {
        Some(StandardNameSpace::GEV)
    } else if s == "CL"@ {
        Some(StandardNameSpace::CL)
    } else if s == "USB"@ {
        Some(StandardNameSpace::USB)
    } else {
        None
    }
}

impl StandardNameSpace {
    pub fn from_text(text: &str) -> (r: Option<StandardNameSpace>)
        ensures
            r == standard_name_space_text(text@),
    {
        if str_eq(text, "None") {
            Some(StandardNameSpace::NoNameSpace)
        } else if str_eq(text, "IIDC") {
            Some(StandardNameSpace::IIDC)
        } else if str_eq(text, "GEV") {
            Some(StandardNameSpace::GEV)
        } else if str_eq(text, "CL") {
            Some(StandardNameSpace::CL)
        } else if str_eq(text, "USB") {
            Some(StandardNameSpace::USB)
        } else {
            None
        }
    }
}

/// The Visibility that its name in a description file stands for.
pub open spec fn visibility_text(s: Seq<char>) -> Option<Visibility> {
    if s == "Beginner"@ {
        Some(Visibility::Beginner)
    } else if s == "Expert"@ {
        Some(Visibility::Expert)
    } else if s == "Guru"@ {
        Some(Visibility::Guru)
    } else if s == "Invisible"@ {
        Some(Visibility::Invisible)
    } else {
        None
    }
}

impl Visibility {
    pub fn from_text(text: &str) -> (r: Option<Visibility>)
        ensures
            r == visibility_text(text@),
    {
        if str_eq(text, "Beginner") {
            Some(Visibility::Beginner)
        } else if str_eq(text, "Expert") {
            Some(Visibility::Expert)
        } else if str_eq(text, "Guru") {
            Some(Visibility::Guru)
        } else if str_eq(text, "Invisible") {
            Some(Visibility::Invisible)
        } else {
            None
        }
    }
}

/// The MergePriority that its name in a description file stands for.
pub open spec fn merge_priority_text(s: Seq<char>) -> Option<MergePriority> {
    if s == "1"@ {
        Some(MergePriority::High)
    } else if s == "0"@ {
        Some(MergePriority::Mid)
    } else if s == "-1"@ {
        Some(MergePriority::Low)
    } else {
        None
    }
}

impl MergePriority {
    pub fn from_text(text: &str) -> (r: Option<MergePriority>)
        ensures
            r == merge_priority_text(text@),
    {
        if str_eq(text, "1") {
            Some(MergePriority::High)
        } else if str_eq(text, "0") {
            Some(MergePriority::Mid)
        } else if str_eq(text, "-1") {
            Some(MergePriority::Low)
        } else {
            None
        }
    }
}

/// The AccessMode that its name in a description file stands for.
pub open spec fn access_mode_text(s: Seq<char>) -> Option<AccessMode> {
    if s == "RO"@ {
        Some(AccessMode::RO)
    } else if s == "WO"@ {
        Some(AccessMode::WO)
    } else if s == "RW"@ {
        Some(AccessMode::RW)
    } else {
        None
    }
}

impl AccessMode {
    pub fn from_text(text: &str) -> (r: Option<AccessMode>)
        ensures
            r == access_mode_text(text@),
    {
        if str_eq(text, "RO") {
            Some(AccessMode::RO)
        } else if str_eq(text, "WO") {
            Some(AccessMode::WO)
        } else if str_eq(text, "RW") {
            Some(AccessMode::RW)
        } else {
            None
        }
    }
}

/// The IntegerRepresentation that its name in a description file stands for.
pub open spec fn integer_representation_text(s: Seq<char>) -> Option<IntegerRepresentation> {
    if s == "Linear"@ {
        Some(IntegerRepresentation::Linear)
    } else if s == "Logarithmic"@ {
        Some(IntegerRepresentation::Logarithmic)
    } else if s == "Boolean"@ {
        Some(IntegerRepresentation::Boolean)
    } else if s == "PureNumber"@ {
        Some(IntegerRepresentation::PureNumber)
    } else if s == "HexNumber"@ {
        Some(IntegerRepresentation::HexNumber)
    } else if s == "IPV4Address"@ {
        Some(IntegerRepresentation::IpV4Address)
    } else if s == "MACAddress"@ {
        Some(IntegerRepresentation::MacAddress)
    } else {
        None
    }
}

impl IntegerRepresentation {
    pub fn from_text(text: &str) -> (r: Option<IntegerRepresentation>)
        ensures
            r == integer_representation_text(text@),
    {
        if str_eq(text, "Linear") {
            Some(IntegerRepresentation::Linear)
        } else if str_eq(text, "Logarithmic") {
            Some(IntegerRepresentation::Logarithmic)
        } else if str_eq(text, "Boolean") {
            Some(IntegerRepresentation::Boolean)
        } else if str_eq(text, "PureNumber") {
            Some(IntegerRepresentation::PureNumber)
        } else if str_eq(text, "HexNumber") {
            Some(IntegerRepresentation::HexNumber)
        } else if str_eq(text, "IPV4Address") {
            Some(IntegerRepresentation::IpV4Address)
        } else if str_eq(text, "MACAddress") {
            Some(IntegerRepresentation::MacAddress)
        } else {
            None
        }
    }
}

/// The FloatRepresentation that its name in a description file stands for.
pub open spec fn float_representation_text(s: Seq<char>) -> Option<FloatRepresentation> {
    if s == "Linear"@ {
        Some(FloatRepresentation::Linear)
    } else if s == "Logarithmic"@ {
        Some(FloatRepresentation::Logarithmic)
    } else if s == "PureNumber"@ {
        Some(FloatRepresentation::PureNumber)
    } else {
        None
    }
}

impl FloatRepresentation {
    pub fn from_text(text: &str) -> (r: Option<FloatRepresentation>)
        ensures
            r == float_representation_text(text@),
    {
        if str_eq(text, "Linear") {
            Some(FloatRepresentation::Linear)
        } else if str_eq(text, "Logarithmic") {
            Some(FloatRepresentation::Logarithmic)
        } else if str_eq(text, "PureNumber") {
            Some(FloatRepresentation::PureNumber)
        } else {
            None
        }
    }
}

/// The Slope that its name in a description file stands for.
pub open spec fn slope_text(s: Seq<char>) -> Option<Slope> {
    if s == "Increasing"@ {
        Some(Slope::Increasing)
    } else if s == "Decreasing"@ {
        Some(Slope::Decreasing)
    } else if s == "Varying"@ {
        Some(Slope::Varying)
    } else if s == "Automatic"@ {
        Some(Slope::Automatic)
    } else {
        None
    }
}

impl Slope {
    pub fn from_text(text: &str) -> (r: Option<Slope>)
        ensures
            r == slope_text(text@),
    {
        if str_eq(text, "Increasing") {
            Some(Slope::Increasing)
        } else if str_eq(text, "Decreasing") {
            Some(Slope::Decreasing)
        } else if str_eq(text, "Varying") {
            Some(Slope::Varying)
        } else if str_eq(text, "Automatic") {
            Some(Slope::Automatic)
        } else {
            None
        }
    }
}

/// The DisplayNotation that its name in a description file stands for.
pub open spec fn display_notation_text(s: Seq<char>) -> Option<DisplayNotation> {
    if s == "Automatic"@ {
        Some(DisplayNotation::Automatic)
    } else if s == "Fixed"@ {
        Some(DisplayNotation::Fixed)
    } else if s == "Scientific"@ {
        Some(DisplayNotation::Scientific)
    } else {
        None
    }
}

impl DisplayNotation {
    pub fn from_text(text: &str) -> (r: Option<DisplayNotation>)
        ensures
            r == display_notation_text(text@),
    {
        if str_eq(text, "Automatic") {
            Some(DisplayNotation::Automatic)
        } else if str_eq(text, "Fixed") {
            Some(DisplayNotation::Fixed)
        } else if str_eq(text, "Scientific") {
            Some(DisplayNotation::Scientific)
        } else {
            None
        }
    }
}

/// The CachingMode that its name in a description file stands for.
pub open spec fn caching_mode_text(s: Seq<char>) -> Option<CachingMode> {
    if s == "WriteThrough"@ {
        Some(CachingMode::WriteThrough)
    } else if s == "WriteAround"@ {
        Some(CachingMode::WriteAround)
    } else if s == "NoCache"@ {
        Some(CachingMode::NoCache)
    } else {
        None
    }
}

impl CachingMode {
    pub fn from_text(text: &str) -> (r: Option<CachingMode>)
        ensures
            r == caching_mode_text(text@),
    {
        if str_eq(text, "WriteThrough") {
            Some(CachingMode::WriteThrough)
        } else if str_eq(text, "WriteAround") {
            Some(CachingMode::WriteAround)
        } else if str_eq(text, "NoCache") {
            Some(CachingMode::NoCache)
        } else {
            None
        }
    }
}

} // verus!
