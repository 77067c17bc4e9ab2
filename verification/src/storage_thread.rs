//! The names under which the storage threads report their memory.

use vstd::prelude::*;
use vstd::string::*;

verus! {

/// The two groups of storage threads.
#[derive(Clone, Copy, Debug, PartialEq, Eq, Structural)]
pub enum StorageGroup {
    Private,
    Public,
}

/// The names of a group's reporters.
#[derive(Debug)]
pub struct ReporterNames {
    pub indexeddb: String,
    pub web_storage: String,
}

impl StorageGroup {
    /// What a group is called.
    pub open spec fn label_text(self) -> Seq<char> {
        match self {
            StorageGroup::Private => "private"@,
            StorageGroup::Public => "public"@,
        }
    }

    /// What the group is called.
    pub fn label(self) -> (label: &'static str)
        ensures
            label@ == self.label_text(),
    {
        match self {
            StorageGroup::Private => "private",
            StorageGroup::Public => "public",
        }
    }

    /// The names of the group's reporters.
    pub fn reporter_names(self) -> (names: ReporterNames)
        ensures
            names.indexeddb@ == "indexedDB-reporter-"@ + self.label_text(),
            names.web_storage@ == "storage-reporter-"@ + self.label_text(),
    {
        let mut indexeddb = "indexedDB-reporter-".to_owned();
        indexeddb.append(self.label());
        let mut web_storage = "storage-reporter-".to_owned();
        web_storage.append(self.label());
        ReporterNames { indexeddb, web_storage }
    }
}

/// Different groups report under different names.
pub proof fn groups_are_told_apart(a: StorageGroup, b: StorageGroup)
    requires
        a != b,
    ensures
        "indexedDB-reporter-"@ + a.label_text() != "indexedDB-reporter-"@ + b.label_text(),
        "storage-reporter-"@ + a.label_text() != "storage-reporter-"@ + b.label_text(),
{
    reveal_strlit("private");
    reveal_strlit("public");
    assert(a.label_text().len() != b.label_text().len());
    assert(("indexedDB-reporter-"@ + a.label_text()).len() != ("indexedDB-reporter-"@
        + b.label_text()).len());
    assert(("storage-reporter-"@ + a.label_text()).len() != ("storage-reporter-"@
        + b.label_text()).len());
}

} // verus!
