//! Pipeline interface model: the external boundary of a Pipeline Contract.
use vstd::prelude::*;

use super::extension::ExtensionMap;
use super::metadata::Metadata;
use crate::diagnostics::opt_text;
use crate::text::{is_blank, str_eq, trim};

verus! {

/// External boundary of a Pipeline Contract.
#[derive(Debug)]
pub struct PipelineInterface {
    /// Pipeline inputs.
    pub inputs: Vec<InterfacePort>,
    /// Pipeline outputs.
    pub outputs: Vec<InterfacePort>,
    /// Interface metadata.
    pub metadata: Option<Metadata>,
    /// Extension fields.
    pub extensions: ExtensionMap,
}

/// A single input or output port on the pipeline interface.
#[derive(Debug)]
pub struct InterfacePort {
    /// Stable port identifier.
    pub id: String,
    /// Interface name for this port.
    pub name: Option<String>,
    /// Reference to an external contract (for example ODCS).
    pub contract_ref: Option<String>,
    /// Logical purpose of the port.
    pub purpose: Option<String>,
    /// Extension fields.
    pub extensions: ExtensionMap,
}

/// Optional text that is present and not blank.
pub open spec fn present(o: Option<Seq<char>>) -> bool {
    match o {
        Some(v) => trim(v).len() > 0,
        None => false,
    }
}

/// All port identifiers of `ports` are pairwise distinct.
pub open spec fn unique_port_ids(ports: Seq<InterfacePort>) -> bool {
    forall|i: int, j: int| 0 <= i < j < ports.len() ==> ports[i].id@ != ports[j].id@
}

fn find_port<'a>(ports: &'a Vec<InterfacePort>, id: &str) -> (r: Option<&'a InterfacePort>)
    ensures
        match r {
            Some(p) => exists|i: int| 0 <= i < ports@.len() && ports@[i] == *p && p.id@ == id@
                && forall|k: int| 0 <= k < i ==> ports@[k].id@ != id@,
            None => forall|k: int| 0 <= k < ports@.len() ==> ports@[k].id@ != id@,
        },
{
    let mut i: usize = 0;
    while i < ports.len()
        invariant
            i <= ports@.len(),
            forall|k: int| 0 <= k < i ==> ports@[k].id@ != id@,
        decreases ports.len() - i,
    {
        if str_eq(ports[i].id.as_str(), id) {
            return Some(&ports[i]);
        }
        i += 1;
    }
    None
}

impl PipelineInterface {
    /// Returns the first input port with the given identifier.
    pub fn input(&self, id: &str) -> (r: Option<&InterfacePort>)
        ensures
            match r {
                Some(p) => exists|i: int| 0 <= i < self.inputs@.len() && self.inputs@[i] == *p && p.id@ == id@
                    && forall|k: int| 0 <= k < i ==> self.inputs@[k].id@ != id@,
                None => forall|k: int| 0 <= k < self.inputs@.len() ==> self.inputs@[k].id@ != id@,
            },
    {
        find_port(&self.inputs, id)
    }

    /// Returns the first output port with the given identifier.
    pub fn output(&self, id: &str) -> (r: Option<&InterfacePort>)
        ensures
            match r {
                Some(p) => exists|i: int| 0 <= i < self.outputs@.len() && self.outputs@[i] == *p && p.id@ == id@
                    && forall|k: int| 0 <= k < i ==> self.outputs@[k].id@ != id@,
                None => forall|k: int| 0 <= k < self.outputs@.len() ==> self.outputs@[k].id@ != id@,
            },
    {
        find_port(&self.outputs, id)
    }

    /// All input ports followed by all output ports.
    pub open spec fn ports(&self) -> Seq<InterfacePort> {
        self.inputs@ + self.outputs@
    }

    /// Returns all input and output ports (inputs first).
    pub fn all_ports(&self) -> (r: Vec<&InterfacePort>)
        ensures
            r@.len() == self.ports().len(),
            forall|i: int| 0 <= i < r@.len() ==> *r@[i] == self.ports()[i],
    {
        let mut out: Vec<&InterfacePort> = Vec::new();
        let mut i: usize = 0;
        while i < self.inputs.len()
            invariant
                i <= self.inputs@.len(),
                out@.len() == i,
                forall|k: int| 0 <= k < i ==> *out@[k] == self.inputs@[k],
            decreases self.inputs.len() - i,
        {
            out.push(&self.inputs[i]);
            i += 1;
        }
        let mut j: usize = 0;
        while j < self.outputs.len()
            invariant
                j <= self.outputs@.len(),
                out@.len() == self.inputs@.len() + j,
                forall|k: int| 0 <= k < self.inputs@.len() ==> *out@[k] == self.inputs@[k],
                forall|k: int| 0 <= k < j ==> *out@[self.inputs@.len() + k] == self.outputs@[k],
            decreases self.outputs.len() - j,
        {
            out.push(&self.outputs[j]);
            j += 1;
        }
        assert forall|i: int| 0 <= i < out@.len() implies *out@[i] == self.ports()[i] by {
            if i >= self.inputs@.len() {
                assert(*out@[self.inputs@.len() + (i - self.inputs@.len())] == self.outputs@[i - self.inputs@.len()]);
            }
        }
        out
    }

    /// Returns `true` when all port identifiers are unique within the interface.
    pub fn has_unique_port_ids(&self) -> (r: bool)
        ensures
            r == unique_port_ids(self.ports()),
    {
        let ports = self.all_ports();
        let mut j: usize = 0;
        while j < ports.len()
            invariant
                j <= ports@.len(),
                ports@.len() == self.ports().len(),
                forall|i: int| 0 <= i < ports@.len() ==> *ports@[i] == self.ports()[i],
                forall|a: int, b: int| 0 <= a < b < j ==> self.ports()[a].id@ != self.ports()[b].id@,
            decreases ports.len() - j,
        {
            let mut i: usize = 0;
            while i < j
                invariant
                    i <= j < ports@.len(),
                    ports@.len() == self.ports().len(),
                    forall|x: int| 0 <= x < ports@.len() ==> *ports@[x] == self.ports()[x],
                    forall|a: int| 0 <= a < i ==> self.ports()[a].id@ != self.ports()[j as int].id@,
                decreases j - i,
            {
                if str_eq(ports[i].id.as_str(), ports[j].id.as_str()) {
                    return false;
                }
                i += 1;
            }
            j += 1;
        }
        true
    }
}

impl InterfacePort {
    /// Returns `true` when all required port properties are present.
    pub fn is_complete(&self) -> (r: bool)
        ensures
            r == (trim(self.id@).len() > 0 && present(opt_text(self.name)) && present(opt_text(self.contract_ref))
                && present(opt_text(self.purpose))),
    {
        !is_blank(self.id.as_str()) && present_exec(&self.name) && present_exec(&self.contract_ref)
            && present_exec(&self.purpose)
    }
}

/// Optional text that is present and not blank.
pub fn present_exec(o: &Option<String>) -> (r: bool)
    ensures
        r == present(opt_text(*o)),
{
    match o {
        Some(v) => !is_blank(v.as_str()),
        None => false,
    }
}

} // verus!
