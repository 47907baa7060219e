//! The runtime query side: what this crate makes of the external control
//! utility's `list` output, and the verb strings its other operations take.

use vstd::prelude::*;

verus! {

/// An operation that the external control utility can run against one VM.
#[derive(Copy, Clone, Debug)]
pub enum Action {
    Start,
    Stop,
    Suspend,
}

impl Action {
    /// The verb string that the control utility accepts for this action.
    pub open spec fn verb_spec(self) -> Seq<char> {
        match self {
            Action::Start => "start"@,
            Action::Stop => "stop"@,
            Action::Suspend => "suspend"@,
        }
    }

    /// The verb handed to the control utility on its command line.
    pub fn verb(&self) -> (r: &'static str)
        ensures
            r@ == self.verb_spec(),
    {
        match self {
            Action::Start => "start",
            Action::Stop => "stop",
            Action::Suspend => "suspend",
        }
    }
}

/// The identities of the running VMs in the control utility's `list` output,
/// given as its lines: everything after the first line, verbatim. The first
/// line is a header and carries no identity.
pub open spec fn running_list_spec(output: Seq<Seq<char>>) -> Seq<Seq<char>> {
    if output.len() == 0 {
        Seq::empty()
    } else {
        output.skip(1)
    }
}

/// Parse the `list` output of the external control utility, handed in as its
/// lines. The first line is a header and is discarded; each remaining line is
/// kept verbatim, since it must match a configuration path exactly.
pub fn get_running_vms(output: &Vec<String>) -> (r: Vec<String>)
    ensures
        r.deep_view() == running_list_spec(output.deep_view()),
{
    let mut r: Vec<String> = Vec::new();
    let mut i: usize = 1;
    while i < output.len()
        invariant
            1 <= i,
            output.len() == 0 ==> i == 1,
            output.len() > 0 ==> i <= output.len(),
            r@.len() == i - 1 || (output.len() == 0 && r@.len() == 0),
            forall|j: int| 0 <= j < r@.len() ==> r@[j]@ == output@[j + 1]@,
        decreases output.len() - i,
    {
        r.push(output[i].clone());
        i = i + 1;
    }
    proof {
        assert(r.deep_view() =~= running_list_spec(output.deep_view()));
    }
    r
}

} // verus!
