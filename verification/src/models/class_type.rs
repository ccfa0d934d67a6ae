use vstd::prelude::*;
use vstd::string::StringExecFns;

verus! {

/// The object classes a label can be made for. Each selects a background
/// template and the folder its assets are read from.
#[derive(Debug, Clone, Copy, PartialEq, Eq, Hash, Structural)]
pub enum ClassType {
    Safe,
    Euclid,
    EuclidPotentialKeter,
    Keter,
    Apollyon,
    Thaumiel,
    Neutralized,
    Explained,
}

/// How many classes there are.
pub const CLASS_COUNT: u64 = 8;

impl ClassType {
    /// Every class, in declaration order.
    pub open spec fn spec_all() -> Seq<ClassType> {
        seq![
            ClassType::Safe,
            ClassType::Euclid,
            ClassType::EuclidPotentialKeter,
            ClassType::Keter,
            ClassType::Apollyon,
            ClassType::Thaumiel,
            ClassType::Neutralized,
            ClassType::Explained,
        ]
    }

    /// Position of the class in declaration order.
    pub open spec fn spec_ordinal(self) -> u64 {
        match self {
            ClassType::Safe => 0,
            ClassType::Euclid => 1,
            ClassType::EuclidPotentialKeter => 2,
            ClassType::Keter => 3,
            ClassType::Apollyon => 4,
            ClassType::Thaumiel => 5,
            ClassType::Neutralized => 6,
            ClassType::Explained => 7,
        }
    }

    /// The upper-case name printed on labels.
    pub open spec fn spec_as_str(self) -> Seq<char> {
        match self {
            ClassType::Safe => "SAFE"@,
            ClassType::Euclid => "EUCLID"@,
            ClassType::EuclidPotentialKeter => "EUCLID / POTENTIAL KETER"@,
            ClassType::Keter => "KETER"@,
            ClassType::Apollyon => "APOLLYON"@,
            ClassType::Thaumiel => "THAUMIEL"@,
            ClassType::Neutralized => "NEUTRALIZED"@,
            ClassType::Explained => "EXPLAINED"@,
        }
    }

    /// The asset folder of the class.
    pub open spec fn spec_folder_name(self) -> Seq<char> {
        match self {
            ClassType::Safe => "safe"@,
            ClassType::Euclid => "euclid"@,
            ClassType::EuclidPotentialKeter => "euclid_potential_keter"@,
            ClassType::Keter => "keter"@,
            ClassType::Apollyon => "apollyon"@,
            ClassType::Thaumiel => "thaumiel"@,
            ClassType::Neutralized => "neutralized"@,
            ClassType::Explained => "explained"@,
        }
    }

    /// Where the background template of the class is stored.
    pub open spec fn spec_label_path(self, alternate: bool) -> Seq<char> {
        "resources/materials/"@ + self.spec_folder_name() + "/label"@ + (if alternate {
            "_2"@
        } else {
            ""@
        }) + ".jpg"@
    }

    /// Every class, in declaration order.
    pub fn all() -> (classes: Vec<ClassType>)
        ensures
            classes@ == Self::spec_all(),
    {
        let classes = vec![
            ClassType::Safe,
            ClassType::Euclid,
            ClassType::EuclidPotentialKeter,
            ClassType::Keter,
            ClassType::Apollyon,
            ClassType::Thaumiel,
            ClassType::Neutralized,
            ClassType::Explained,
        ];
        assert(classes@ =~= Self::spec_all());
        classes
    }

    /// Position of the class in declaration order.
    pub fn ordinal(&self) -> (index: u64)
        ensures
            index == self.spec_ordinal(),
            index < CLASS_COUNT,
            Self::spec_all()[index as int] == *self,
    {
        match self {
            ClassType::Safe => 0,
            ClassType::Euclid => 1,
            ClassType::EuclidPotentialKeter => 2,
            ClassType::Keter => 3,
            ClassType::Apollyon => 4,
            ClassType::Thaumiel => 5,
            ClassType::Neutralized => 6,
            ClassType::Explained => 7,
        }
    }

    /// The upper-case name printed on labels.
    pub fn as_str(&self) -> (name: &'static str)
        ensures
            name@ == self.spec_as_str(),
    {
        match self {
            ClassType::Safe => "SAFE",
            ClassType::Euclid => "EUCLID",
            ClassType::EuclidPotentialKeter => "EUCLID / POTENTIAL KETER",
            ClassType::Keter => "KETER",
            ClassType::Apollyon => "APOLLYON",
            ClassType::Thaumiel => "THAUMIEL",
            ClassType::Neutralized => "NEUTRALIZED",
            ClassType::Explained => "EXPLAINED",
        }
    }

    /// The asset folder of the class.
    pub fn folder_name(&self) -> (folder: String)
        ensures
            folder@ == self.spec_folder_name(),
    {
        let folder = match self {
            ClassType::Safe => "safe",
            ClassType::Euclid => "euclid",
            ClassType::EuclidPotentialKeter => "euclid_potential_keter",
            ClassType::Keter => "keter",
            ClassType::Apollyon => "apollyon",
            ClassType::Thaumiel => "thaumiel",
            ClassType::Neutralized => "neutralized",
            ClassType::Explained => "explained",
        };
        String::from_str(folder)
    }

    /// Where the background template of the class is stored, for either style.
    pub fn label_path(&self, alternate: bool) -> (path: String)
        ensures
            path@ == self.spec_label_path(alternate),
    {
        let mut path = String::from_str("resources/materials/");
        let folder = self.folder_name();
        path.append(folder.as_str());
        path.append("/label");
        path.append(if alternate { "_2" } else { "" });
        path.append(".jpg");
        path
    }
}

impl Default for ClassType {
    fn default() -> (class: ClassType)
        ensures
            class == ClassType::Safe,
    {
        ClassType::Safe
    }
}

} // verus!
