//! Extension fields preserved from source documents.
use vstd::prelude::*;

verus! {

/// One preserved extension value, kept as its JSON text.
#[derive(Debug)]
pub struct ExtensionValue {
    /// JSON rendering of the value.
    pub json: String,
}

/// One extension field.
#[derive(Debug)]
pub struct ExtensionEntry {
    /// Field name (for example `x-vendor`).
    pub key: String,
    /// Field value.
    pub value: ExtensionValue,
}

/// Extension fields in document order; keys are unique.
#[derive(Debug)]
pub struct ExtensionMap {
    /// Entries in document order.
    pub entries: Vec<ExtensionEntry>,
}

impl ExtensionMap {
    /// An empty extension map.
    pub fn empty() -> (r: ExtensionMap)
        ensures
            r.entries@.len() == 0,
    {
        ExtensionMap { entries: Vec::new() }
    }
}

impl Clone for ExtensionValue {
    fn clone(&self) -> (r: Self)
        ensures
            r == *self,
    {
        ExtensionValue { json: self.json.clone() }
    }
}

impl Clone for ExtensionEntry {
    fn clone(&self) -> (r: Self)
        ensures
            r == *self,
    {
        ExtensionEntry { key: self.key.clone(), value: self.value.clone() }
    }
}

impl Clone for ExtensionMap {
    fn clone(&self) -> (r: Self)
        ensures
            r.entries@ == self.entries@,
    {
        let mut entries: Vec<ExtensionEntry> = Vec::new();
        let mut i: usize = 0;
        while i < self.entries.len()
            invariant
                i <= self.entries@.len(),
                entries@ == self.entries@.subrange(0, i as int),
            decreases self.entries.len() - i,
        {
            entries.push(self.entries[i].clone());
            i += 1;
            assert(entries@ =~= self.entries@.subrange(0, i as int));
        }
        assert(self.entries@.subrange(0, self.entries@.len() as int) =~= self.entries@);
        ExtensionMap { entries }
    }
}

} // verus!
