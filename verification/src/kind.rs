//! Sensor kinds and the column names that identify them.

use vstd::prelude::*;

verus! {

/// Channel of a digital dissolved oxygen controller: concentration,
/// temperature or voltage, each on input 1 or 2.
#[derive(Clone, Copy, Debug, PartialEq, Eq, Structural)]
pub enum Ddoc {
    C1,
    C2,
    T1,
    T2,
    V1,
    V2,
}

/// The kind of controller that a frame or a pane belongs to.
#[derive(Clone, Copy, Debug, PartialEq, Eq, Structural)]
pub enum Kind {
    /// Analog turbidity controller.
    Atuc,
    /// Digital dissolved oxygen controller, by channel.
    Ddoc(Ddoc),
    /// Digital temperature controller.
    Dtec,
}

/// How a pane presents its frame.
#[derive(Clone, Copy, Debug, PartialEq, Eq, Structural)]
pub enum ViewMode {
    Plot,
    Table,
}

impl Default for ViewMode {
    /// A pane is plotted unless it is asked to show a table.
    fn default() -> (view: ViewMode)
        ensures
            view == ViewMode::Plot,
    {
        ViewMode::Plot
    }
}

/// The distinguishing column of a frame carries none of the known names.
#[derive(Clone, Copy, Debug, PartialEq, Eq, Structural)]
pub struct UnsupportedFormat;

pub const NAME_DDOC_C1: &'static str = "DDOC.C1";

pub const NAME_DDOC_C2: &'static str = "DDOC.C2";

pub const NAME_DDOC_T1: &'static str = "DDOC.T1";

pub const NAME_DDOC_T2: &'static str = "DDOC.T2";

pub const NAME_DDOC_V1: &'static str = "DDOC.V1";

pub const NAME_DDOC_V2: &'static str = "DDOC.V2";

pub const NAME_TEMPERATURE: &'static str = "Temperature";

pub const NAME_TURBIDITY: &'static str = "Turbidity";

impl Kind {
    /// The column name that identifies frames of this kind.
    pub open spec fn spec_name(self) -> Seq<char> {
        match self {
            Kind::Dtec => NAME_TEMPERATURE@,
            Kind::Atuc => NAME_TURBIDITY@,
            Kind::Ddoc(Ddoc::C1) => NAME_DDOC_C1@,
            Kind::Ddoc(Ddoc::C2) => NAME_DDOC_C2@,
            Kind::Ddoc(Ddoc::T1) => NAME_DDOC_T1@,
            Kind::Ddoc(Ddoc::T2) => NAME_DDOC_T2@,
            Kind::Ddoc(Ddoc::V1) => NAME_DDOC_V1@,
            Kind::Ddoc(Ddoc::V2) => NAME_DDOC_V2@,
        }
    }

    /// The kind that a column name stands for, if it is one of the known names.
    pub open spec fn of_name(name: Seq<char>) -> Option<Kind> {
        if exists|kind: Kind| #[trigger] kind.spec_name() == name {
            Some(choose|kind: Kind| #[trigger] kind.spec_name() == name)
        } else {
            None
        }
    }

    /// What a column name is classified as: its kind, or `UnsupportedFormat`
    /// when it is the name of no kind.
    pub open spec fn classified(name: Seq<char>) -> Result<Kind, UnsupportedFormat> {
        match Kind::of_name(name) {
            Some(kind) => Ok(kind),
            None => Err(UnsupportedFormat),
        }
    }

    /// Localization key of the menu entry that opens a pane of this kind.
    pub open spec fn spec_text(self) -> Seq<char> {
        match self {
            Kind::Atuc => "analog_turbidity_controller.abbreviation"@,
            Kind::Ddoc(Ddoc::C1) => "digital_disolved_oxygen_controller_concentration_channel?index=1"@,
            Kind::Ddoc(Ddoc::C2) => "digital_disolved_oxygen_controller_concentration_channel?index=2"@,
            Kind::Ddoc(Ddoc::T1) => "digital_disolved_oxygen_controller_temperature_channel?index=1"@,
            Kind::Ddoc(Ddoc::T2) => "digital_disolved_oxygen_controller_temperature_channel?index=2"@,
            Kind::Ddoc(Ddoc::V1) => "digital_disolved_oxygen_controller_voltage_channel?index=1"@,
            Kind::Ddoc(Ddoc::V2) => "digital_disolved_oxygen_controller_voltage_channel?index=2"@,
            Kind::Dtec => "digital_temperature_controller.abbreviation"@,
        }
    }

    /// Localization key of the hover text of that menu entry.
    pub open spec fn spec_hover_text(self) -> Seq<char> {
        match self {
            Kind::Atuc => "analog_turbidity_controller.hover"@,
            Kind::Dtec => "digital_temperature_controller.hover"@,
            Kind::Ddoc(_) => self.spec_text(),
        }
    }

    /// The column name that identifies frames of this kind.
    pub fn name(&self) -> (name: &'static str)
        ensures
            name@ == self.spec_name(),
    {
        match self {
            Kind::Dtec => NAME_TEMPERATURE,
            Kind::Atuc => NAME_TURBIDITY,
            Kind::Ddoc(Ddoc::C1) => NAME_DDOC_C1,
            Kind::Ddoc(Ddoc::C2) => NAME_DDOC_C2,
            Kind::Ddoc(Ddoc::T1) => NAME_DDOC_T1,
            Kind::Ddoc(Ddoc::T2) => NAME_DDOC_T2,
            Kind::Ddoc(Ddoc::V1) => NAME_DDOC_V1,
            Kind::Ddoc(Ddoc::V2) => NAME_DDOC_V2,
        }
    }

    /// Localization key of the menu entry that opens a pane of this kind.
    pub fn text(&self) -> (text: &'static str)
        ensures
            text@ == self.spec_text(),
    {
        match self {
            Kind::Atuc => "analog_turbidity_controller.abbreviation",
            Kind::Ddoc(Ddoc::C1) => "digital_disolved_oxygen_controller_concentration_channel?index=1",
            Kind::Ddoc(Ddoc::C2) => "digital_disolved_oxygen_controller_concentration_channel?index=2",
            Kind::Ddoc(Ddoc::T1) => "digital_disolved_oxygen_controller_temperature_channel?index=1",
            Kind::Ddoc(Ddoc::T2) => "digital_disolved_oxygen_controller_temperature_channel?index=2",
            Kind::Ddoc(Ddoc::V1) => "digital_disolved_oxygen_controller_voltage_channel?index=1",
            Kind::Ddoc(Ddoc::V2) => "digital_disolved_oxygen_controller_voltage_channel?index=2",
            Kind::Dtec => "digital_temperature_controller.abbreviation",
        }
    }

    /// Localization key of the hover text of that menu entry.
    pub fn hover_text(&self) -> (text: &'static str)
        ensures
            text@ == self.spec_hover_text(),
    {
        match self {
            Kind::Atuc => "analog_turbidity_controller.hover",
            Kind::Dtec => "digital_temperature_controller.hover",
            Kind::Ddoc(_) => self.text(),
        }
    }

    /// Classifies a column name: the kind whose name it is, or
    /// `UnsupportedFormat` when no kind has that name.
    pub fn from_name(name: &str) -> (result: Result<Kind, UnsupportedFormat>)
        ensures
            match result {
                Ok(kind) => name@ == kind.spec_name(),
                Err(_) => forall|kind: Kind| name@ != #[trigger] kind.spec_name(),
            },
            result == Kind::classified(name@),
    {
        let name = String::from_str(name);
        let result = if name == String::from_str(NAME_TEMPERATURE) {
            Ok(Kind::Dtec)
        } else if name == String::from_str(NAME_TURBIDITY) {
            Ok(Kind::Atuc)
        } else if name == String::from_str(NAME_DDOC_C1) {
            Ok(Kind::Ddoc(Ddoc::C1))
        } else if name == String::from_str(NAME_DDOC_C2) {
            Ok(Kind::Ddoc(Ddoc::C2))
        } else if name == String::from_str(NAME_DDOC_T1) {
            Ok(Kind::Ddoc(Ddoc::T1))
        } else if name == String::from_str(NAME_DDOC_T2) {
            Ok(Kind::Ddoc(Ddoc::T2))
        } else if name == String::from_str(NAME_DDOC_V1) {
            Ok(Kind::Ddoc(Ddoc::V1))
        } else if name == String::from_str(NAME_DDOC_V2) {
            Ok(Kind::Ddoc(Ddoc::V2))
        } else {
            Err(UnsupportedFormat)
        };
        proof {
            match result {
                Ok(kind) => {
                    lemma_of_name(kind);
                },
                Err(_) => {},
            }
        }
        result
    }
}

/// No two kinds share a column name.
pub proof fn lemma_names_distinct(a: Kind, b: Kind)
    ensures
        a.spec_name() == b.spec_name() <==> a == b,
{
    reveal_strlit("Temperature");
    reveal_strlit("Turbidity");
    reveal_strlit("DDOC.C1");
    reveal_strlit("DDOC.C2");
    reveal_strlit("DDOC.T1");
    reveal_strlit("DDOC.T2");
    reveal_strlit("DDOC.V1");
    reveal_strlit("DDOC.V2");
    if a != b && a.spec_name().len() == b.spec_name().len() {
        assert(a.spec_name()[5] != b.spec_name()[5] || a.spec_name()[6] != b.spec_name()[6]);
    }
}

/// Classification undoes naming: the name of a kind is classified as that
/// kind, for each of the eight kinds.
pub proof fn lemma_of_name(kind: Kind)
    ensures
        Kind::of_name(kind.spec_name()) == Some(kind),
{
    let name = kind.spec_name();
    let chosen = choose|other: Kind| #[trigger] other.spec_name() == name;
    lemma_names_distinct(chosen, kind);
}

/// A name is classified as a kind exactly when it is that kind's name, and
/// as none exactly when it is the name of no kind.
pub proof fn lemma_of_name_exact(name: Seq<char>)
    ensures
        forall|kind: Kind| Kind::of_name(name) == Some(kind) <==> #[trigger] kind.spec_name() == name,
        Kind::of_name(name) is None <==> forall|kind: Kind| #[trigger] kind.spec_name() != name,
{
    assert forall|kind: Kind| Kind::of_name(name) == Some(kind) <==> #[trigger] kind.spec_name()
        == name by {
        if kind.spec_name() == name {
            lemma_of_name(kind);
        }
    }
}

} // verus!
