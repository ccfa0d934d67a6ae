use crate::models::class_type::ClassType;
use vstd::prelude::*;
use vstd::string::StringExecFns;

verus! {

/// The hazards a warning icon exists for.
#[derive(Debug, Clone, Copy, PartialEq, Eq, Hash, Structural)]
pub enum Hazard {
    AutonomousObject,
    BiologicalHazard,
    Cognitohazard,
    ElectricShock,
    ExistentialThreat,
    InconsistentTopology,
    IndirectInjuryHazard,
    MemeticHazard,
    NonstandardSpacetime,
    Shapeshifting,
    RadioactivityHazard,
    SelfReplicating,
    SentientViolent,
    SentientObject,
}

/// How many hazards there are.
pub const HAZARD_COUNT: u64 = 14;

impl Hazard {
    /// Every hazard, in declaration order.
    pub open spec fn spec_all() -> Seq<Hazard> {
        seq![
            Hazard::AutonomousObject,
            Hazard::BiologicalHazard,
            Hazard::Cognitohazard,
            Hazard::ElectricShock,
            Hazard::ExistentialThreat,
            Hazard::InconsistentTopology,
            Hazard::IndirectInjuryHazard,
            Hazard::MemeticHazard,
            Hazard::NonstandardSpacetime,
            Hazard::Shapeshifting,
            Hazard::RadioactivityHazard,
            Hazard::SelfReplicating,
            Hazard::SentientViolent,
            Hazard::SentientObject,
        ]
    }

    /// Position of the hazard in declaration order.
    pub open spec fn spec_ordinal(self) -> u64 {
        match self {
            Hazard::AutonomousObject => 0,
            Hazard::BiologicalHazard => 1,
            Hazard::Cognitohazard => 2,
            Hazard::ElectricShock => 3,
            Hazard::ExistentialThreat => 4,
            Hazard::InconsistentTopology => 5,
            Hazard::IndirectInjuryHazard => 6,
            Hazard::MemeticHazard => 7,
            Hazard::NonstandardSpacetime => 8,
            Hazard::Shapeshifting => 9,
            Hazard::RadioactivityHazard => 10,
            Hazard::SelfReplicating => 11,
            Hazard::SentientViolent => 12,
            Hazard::SentientObject => 13,
        }
    }

    /// The name shown to a person choosing a hazard.
    pub open spec fn spec_display_name(self) -> Seq<char> {
        match self {
            Hazard::AutonomousObject => "Autonomous Object"@,
            Hazard::BiologicalHazard => "Biological Hazard"@,
            Hazard::Cognitohazard => "Cognitohazard"@,
            Hazard::ElectricShock => "Electric Shock"@,
            Hazard::ExistentialThreat => "Existential Threat"@,
            Hazard::InconsistentTopology => "Inconsistent Topology"@,
            Hazard::IndirectInjuryHazard => "Indirect Injury Hazard"@,
            Hazard::MemeticHazard => "Memetic Hazard"@,
            Hazard::NonstandardSpacetime => "Nonstandard Spacetime"@,
            Hazard::Shapeshifting => "Shapeshifting"@,
            Hazard::RadioactivityHazard => "Radioactivity Hazard"@,
            Hazard::SelfReplicating => "Self Replicating"@,
            Hazard::SentientViolent => "Sentient and Violent"@,
            Hazard::SentientObject => "Sentient Object"@,
        }
    }

    /// The stem of the icon's file name.
    pub open spec fn spec_file_name(self) -> Seq<char> {
        match self {
            Hazard::AutonomousObject => "autonomous_object"@,
            Hazard::BiologicalHazard => "biological_hazard"@,
            Hazard::Cognitohazard => "cognitohazard"@,
            Hazard::ElectricShock => "electric_shock"@,
            Hazard::ExistentialThreat => "existential_threat"@,
            Hazard::InconsistentTopology => "inconsistent_topology"@,
            Hazard::IndirectInjuryHazard => "indirect_injury_hazard"@,
            Hazard::MemeticHazard => "memetic_hazard"@,
            Hazard::NonstandardSpacetime => "nonstandard_spacetime"@,
            Hazard::Shapeshifting => "shapeshifting"@,
            Hazard::RadioactivityHazard => "radioactivity_hazard"@,
            Hazard::SelfReplicating => "self_replicating"@,
            Hazard::SentientViolent => "sentient_violent"@,
            Hazard::SentientObject => "sentient_object"@,
        }
    }

    /// Where the icon of this hazard is stored for a class.
    pub open spec fn spec_icon_path(self, class: ClassType) -> Seq<char> {
        "resources/materials/"@ + class.spec_folder_name() + "/warnings/"@ + self.spec_file_name()
            + ".png"@
    }

    /// Every hazard, in declaration order.
    pub fn all() -> (hazards: Vec<Hazard>)
        ensures
            hazards@ == Self::spec_all(),
    {
        let hazards = vec![
            Hazard::AutonomousObject,
            Hazard::BiologicalHazard,
            Hazard::Cognitohazard,
            Hazard::ElectricShock,
            Hazard::ExistentialThreat,
            Hazard::InconsistentTopology,
            Hazard::IndirectInjuryHazard,
            Hazard::MemeticHazard,
            Hazard::NonstandardSpacetime,
            Hazard::Shapeshifting,
            Hazard::RadioactivityHazard,
            Hazard::SelfReplicating,
            Hazard::SentientViolent,
            Hazard::SentientObject,
        ];
        assert(hazards@ =~= Self::spec_all());
        hazards
    }

    /// Position of the hazard in declaration order.
    pub fn ordinal(&self) -> (index: u64)
        ensures
            index == self.spec_ordinal(),
            index < HAZARD_COUNT,
            Self::spec_all()[index as int] == *self,
    {
        match self {
            Hazard::AutonomousObject => 0,
            Hazard::BiologicalHazard => 1,
            Hazard::Cognitohazard => 2,
            Hazard::ElectricShock => 3,
            Hazard::ExistentialThreat => 4,
            Hazard::InconsistentTopology => 5,
            Hazard::IndirectInjuryHazard => 6,
            Hazard::MemeticHazard => 7,
            Hazard::NonstandardSpacetime => 8,
            Hazard::Shapeshifting => 9,
            Hazard::RadioactivityHazard => 10,
            Hazard::SelfReplicating => 11,
            Hazard::SentientViolent => 12,
            Hazard::SentientObject => 13,
        }
    }

    /// The name shown to a person choosing a hazard.
    pub fn display_name(&self) -> (name: &'static str)
        ensures
            name@ == self.spec_display_name(),
    {
        match self {
            Hazard::AutonomousObject => "Autonomous Object",
            Hazard::BiologicalHazard => "Biological Hazard",
            Hazard::Cognitohazard => "Cognitohazard",
            Hazard::ElectricShock => "Electric Shock",
            Hazard::ExistentialThreat => "Existential Threat",
            Hazard::InconsistentTopology => "Inconsistent Topology",
            Hazard::IndirectInjuryHazard => "Indirect Injury Hazard",
            Hazard::MemeticHazard => "Memetic Hazard",
            Hazard::NonstandardSpacetime => "Nonstandard Spacetime",
            Hazard::Shapeshifting => "Shapeshifting",
            Hazard::RadioactivityHazard => "Radioactivity Hazard",
            Hazard::SelfReplicating => "Self Replicating",
            Hazard::SentientViolent => "Sentient and Violent",
            Hazard::SentientObject => "Sentient Object",
        }
    }

    /// The stem of the icon's file name.
    pub fn file_name(&self) -> (name: &'static str)
        ensures
            name@ == self.spec_file_name(),
    {
        match self {
            Hazard::AutonomousObject => "autonomous_object",
            Hazard::BiologicalHazard => "biological_hazard",
            Hazard::Cognitohazard => "cognitohazard",
            Hazard::ElectricShock => "electric_shock",
            Hazard::ExistentialThreat => "existential_threat",
            Hazard::InconsistentTopology => "inconsistent_topology",
            Hazard::IndirectInjuryHazard => "indirect_injury_hazard",
            Hazard::MemeticHazard => "memetic_hazard",
            Hazard::NonstandardSpacetime => "nonstandard_spacetime",
            Hazard::Shapeshifting => "shapeshifting",
            Hazard::RadioactivityHazard => "radioactivity_hazard",
            Hazard::SelfReplicating => "self_replicating",
            Hazard::SentientViolent => "sentient_violent",
            Hazard::SentientObject => "sentient_object",
        }
    }

    /// Where the icon of this hazard is stored for a class.
    pub fn icon_path(&self, class: &ClassType) -> (path: String)
        ensures
            path@ == self.spec_icon_path(*class),
    {
        let mut path = String::from_str("resources/materials/");
        let folder = class.folder_name();
        path.append(folder.as_str());
        path.append("/warnings/");
        path.append(self.file_name());
        path.append(".png");
        path
    }
}

} // verus!
