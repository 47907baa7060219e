//! The inventory builder: turn the files gathered by a directory walk into
//! VM records, reconcile them against the running set, and look records up
//! by display name without regard to case.

use vstd::prelude::*;
use vstd::string::StringExecFns;

use crate::config::extract_name_spec;
use crate::config::extract_vmx_name;
use crate::runtime::Action;
use crate::runtime::running_list_spec;

verus! {

/// One regular file found by the caller's walk of the search tree: its path
/// and the text lines it holds. A file that could not be read is not handed
/// in at all: dropping it keeps the best-effort inventory.
#[derive(Debug)]
pub struct ScanFile {
    pub path: String,
    pub lines: Vec<String>,
}

/// Representation of a VM: display name, configuration path (its identity),
/// and whether it was running when the inventory was built.
#[derive(Debug)]
pub struct Vm {
    pub name: String,
    pub vmx: String,
    pub is_running: bool,
}

/// The mathematical model of a VM record.
pub ghost struct VmModel {
    pub name: Seq<char>,
    pub vmx: Seq<char>,
    pub is_running: bool,
}

impl View for Vm {
    type V = VmModel;

    open spec fn view(&self) -> VmModel {
        VmModel { name: self.name@, vmx: self.vmx@, is_running: self.is_running }
    }
}

/// The models of a sequence of VM records.
pub open spec fn models_of(vms: Seq<Vm>) -> Seq<VmModel> {
    Seq::new(vms.len(), |i: int| vms[i]@)
}

/// Where the file name of a path begins: one past its last `/` separator.
pub open spec fn file_name_start(p: Seq<char>) -> int
    decreases p.len(),
{
    if p.len() == 0 {
        0
    } else if p[p.len() - 1] == '/' {
        p.len() as int
    } else {
        file_name_start(p.drop_last())
    }
}

/// The path names a configuration file: its file name carries the `.vmx`
/// extension. A file name that is nothing but `.vmx` has no stem and so no
/// extension; hence the file name must run to five characters at least.
pub open spec fn is_vmx_path(p: Seq<char>) -> bool {
    &&& p.len() - file_name_start(p) >= 5
    &&& p[p.len() - 4] == '.'
    &&& p[p.len() - 3] == 'v'
    &&& p[p.len() - 2] == 'm'
    &&& p[p.len() - 1] == 'x'
}

proof fn lemma_file_name_start_is(p: Seq<char>, s: int)
    requires
        0 <= s <= p.len(),
        s == 0 || p[s - 1] == '/',
        forall|m: int| s <= m < p.len() ==> p[m] != '/',
    ensures
        file_name_start(p) == s,
    decreases p.len(),
{
    if p.len() == 0 {
    } else if p[p.len() - 1] == '/' {
        assert(s == p.len());
    } else {
        assert(s < p.len());
        lemma_file_name_start_is(p.drop_last(), s);
    }
}

fn file_name_start_exec(path: &str, n: usize) -> (s: usize)
    requires
        n == path@.len(),
    ensures
        s as int == file_name_start(path@),
        s <= n,
{
    let mut j: usize = n;
    while j > 0
        invariant
            j <= n,
            n == path@.len(),
            forall|m: int| j <= m < n ==> path@[m] != '/',
        decreases j,
    {
        if path.get_char(j - 1) == '/' {
            proof {
                lemma_file_name_start_is(path@, j as int);
            }
            return j;
        }
        j = j - 1;
    }
    proof {
        lemma_file_name_start_is(path@, 0);
    }
    0
}

/// Whether a path names a configuration file; the walk's candidate filter.
pub fn has_vmx_extension(path: &str) -> (b: bool)
    ensures
        b == is_vmx_path(path@),
{
    let n = path.unicode_len();
    let s = file_name_start_exec(path, n);
    if n < 5 || n - s < 5 {
        return false;
    }
    let b = path.get_char(n - 4) == '.' && path.get_char(n - 3) == 'v' && path.get_char(n - 2)
        == 'm' && path.get_char(n - 1) == 'x';
    b
}

/// What `str::to_lowercase` returns for a string: a function of its
/// characters alone.
pub uninterp spec fn lower_of(s: Seq<char>) -> Seq<char>;

/// Relies on str::to_lowercase: the lowercase form of a string depends on
/// its characters alone.
#[verifier::external_body]
fn lowercase(s: &str) -> (r: String)
    ensures
        r@ == lower_of(s@),
{
    s.to_lowercase()
}

/// The record that one configuration file yields against a given running
/// set: the extracted display name, the path as identity, and the running
/// mark exactly where the path stands verbatim in the set.
pub open spec fn vm_model_of(f: ScanFile, running: Seq<Seq<char>>) -> VmModel {
    VmModel {
        name: extract_name_spec(f.lines.deep_view()),
        vmx: f.path@,
        is_running: running.contains(f.path@),
    }
}

/// The inventory that the scanned files from `k` on yield: one record per
/// configuration file, in scan order.
pub open spec fn inventory_from(files: Seq<ScanFile>, running: Seq<Seq<char>>, k: int) -> Seq<
    VmModel,
>
    decreases files.len() - k,
{
    if k < 0 || k >= files.len() {
        Seq::empty()
    } else if is_vmx_path(files[k].path@) {
        seq![vm_model_of(files[k], running)] + inventory_from(files, running, k + 1)
    } else {
        inventory_from(files, running, k + 1)
    }
}

/// The inventory that a scan yields against a given running set.
pub open spec fn inventory_spec(files: Seq<ScanFile>, running: Seq<Seq<char>>) -> Seq<VmModel> {
    inventory_from(files, running, 0)
}

/// The paths of the scanned files that carry the configuration extension,
/// from `k` on, in scan order.
pub open spec fn vmx_paths_from(files: Seq<ScanFile>, k: int) -> Seq<Seq<char>>
    decreases files.len() - k,
{
    if k < 0 || k >= files.len() {
        Seq::empty()
    } else if is_vmx_path(files[k].path@) {
        seq![files[k].path@] + vmx_paths_from(files, k + 1)
    } else {
        vmx_paths_from(files, k + 1)
    }
}

/// The paths of all scanned files that carry the configuration extension.
pub open spec fn vmx_paths(files: Seq<ScanFile>) -> Seq<Seq<char>> {
    vmx_paths_from(files, 0)
}

impl Vm {
    /// Gather VM info from a `.vmx` file, given its path and its text lines.
    /// A fresh record is never marked running: the running mark is set only
    /// by reconciliation when the inventory is built.
    pub fn from_vmx(vmx: String, lines: &Vec<String>) -> (vm: Vm)
        ensures
            vm.vmx == vmx,
            vm.name@ == extract_name_spec(lines.deep_view()),
            !vm.is_running,
    {
        let name = extract_vmx_name(lines);
        Vm { name, vmx, is_running: false }
    }

    /// The command line for running an action against this VM: the action's
    /// verb and then the configuration path, the two arguments that the
    /// external control utility takes.
    pub fn manage_command(&self, action: Action) -> (r: (String, String))
        ensures
            r.0@ == action.verb_spec(),
            r.1@ == self.vmx@,
    {
        (String::from_str(action.verb()), self.vmx.clone())
    }

    /// The notice reported after a successful action: the verb with an `ed`
    /// ending, then the VM's display name.
    pub fn manage_notice(&self, action: Action) -> (r: String)
        ensures
            r@ == action.verb_spec() + "ed "@ + self.name@,
    {
        let mut s = String::from_str(action.verb());
        s.append("ed ");
        s.append(self.name.as_str());
        s
    }
}

fn contains_string(v: &Vec<String>, s: &String) -> (b: bool)
    ensures
        b == v.deep_view().contains(s@),
{
    let mut i: usize = 0;
    while i < v.len()
        invariant
            i <= v.len(),
            forall|m: int| 0 <= m < i ==> v.deep_view()[m] != s@,
        decreases v.len() - i,
    {
        if v[i] == *s {
            proof {
                assert(v.deep_view()[i as int] == s@);
            }
            return true;
        }
        i = i + 1;
    }
    proof {
        assert(!v.deep_view().contains(s@)) by {
            if v.deep_view().contains(s@) {
                let m = choose|m: int|
                    0 <= m < v.deep_view().len() && v.deep_view()[m] == s@;
                assert(false);
            }
        }
    }
    false
}

/// Build the inventory from the files a walk of the search tree gathered and
/// the running set the control utility reported: exactly the files whose
/// path carries the `.vmx` extension become records, in scan order, each
/// with its extracted display name, and marked running exactly where its
/// path stands verbatim in the running set.
pub fn get_vms(files: &Vec<ScanFile>, running: &Vec<String>) -> (r: Vec<Vm>)
    ensures
        models_of(r@) == inventory_spec(files@, running.deep_view()),
{
    let ghost rdv = running.deep_view();
    let mut r: Vec<Vm> = Vec::new();
    proof {
        assert(models_of(r@) + inventory_from(files@, rdv, 0) =~= inventory_spec(files@, rdv));
    }
    let mut k: usize = 0;
    while k < files.len()
        invariant
            k <= files.len(),
            rdv == running.deep_view(),
            inventory_spec(files@, rdv) == models_of(r@) + inventory_from(files@, rdv, k as int),
        decreases files.len() - k,
    {
        let f = &files[k];
        if has_vmx_extension(f.path.as_str()) {
            let mut vm = Vm::from_vmx(f.path.clone(), &f.lines);
            vm.is_running = contains_string(running, &vm.vmx);
            proof {
                assert(vm@ == vm_model_of(files@[k as int], rdv));
                assert(models_of(r@.push(vm)) =~= models_of(r@) + seq![vm@]);
                assert((models_of(r@) + seq![vm@]) + inventory_from(files@, rdv, k + 1)
                    =~= models_of(r@) + (seq![vm@] + inventory_from(files@, rdv, k + 1)));
            }
            r.push(vm);
        }
        k = k + 1;
    }
    proof {
        assert(models_of(r@) + inventory_from(files@, rdv, files@.len() as int) =~= models_of(r@));
    }
    r
}

/// The record that a name lookup yields on an inventory, looking from
/// position `k` on: the first record whose display name equals the requested
/// name without regard to case.
pub open spec fn find_from(inv: Seq<VmModel>, name: Seq<char>, k: int) -> Option<VmModel>
    decreases inv.len() - k,
{
    if k < 0 || k >= inv.len() {
        None
    } else if lower_of(inv[k].name) == lower_of(name) {
        Some(inv[k])
    } else {
        find_from(inv, name, k + 1)
    }
}

/// The record that a name lookup yields on an inventory.
pub open spec fn find_spec(inv: Seq<VmModel>, name: Seq<char>) -> Option<VmModel> {
    find_from(inv, name, 0)
}

/// The lookup outcome for a name that no record carries; it keeps the
/// requested name for the caller's message.
#[derive(Debug)]
pub struct NotFound {
    pub name: String,
}

proof fn lemma_find_from_skip(inv: Seq<VmModel>, name: Seq<char>, k: int, i: int)
    requires
        0 <= k <= i <= inv.len(),
        forall|m: int| k <= m < i ==> lower_of((#[trigger] inv[m]).name) != lower_of(name),
    ensures
        find_from(inv, name, k) == find_from(inv, name, i),
    decreases i - k,
{
    if k < i {
        lemma_find_from_skip(inv, name, k + 1, i);
    }
}

/// Search the inventory of a scan for a VM by display name, without regard
/// to case; the first record in scan order wins where several share a name.
/// A missing name is a normal outcome, reported with the requested name.
pub fn get_vm(files: &Vec<ScanFile>, running: &Vec<String>, name: &str) -> (r: Result<
    Vm,
    NotFound,
>)
    ensures
        ({
            let inv = inventory_spec(files@, running.deep_view());
            match r {
                Ok(vm) => find_spec(inv, name@) == Some(vm@),
                Err(e) => e.name@ == name@ && find_spec(inv, name@) is None,
            }
        }),
{
    let ghost inv = inventory_spec(files@, running.deep_view());
    let mut vms = get_vms(files, running);
    let target = lowercase(name);
    let mut i: usize = 0;
    while i < vms.len()
        invariant
            i <= vms.len(),
            inv == inventory_spec(files@, running.deep_view()),
            models_of(vms@) == inv,
            target@ == lower_of(name@),
            forall|m: int| 0 <= m < i ==> lower_of((#[trigger] inv[m]).name) != lower_of(name@),
        decreases vms.len() - i,
    {
        let low = lowercase(vms[i].name.as_str());
        if low == target {
            proof {
                assert(inv[i as int] == vms@[i as int]@);
                lemma_find_from_skip(inv, name@, 0, i as int);
            }
            let vm = vms.remove(i);
            return Ok(vm);
        }
        proof {
            assert(inv[i as int] == vms@[i as int]@);
        }
        i = i + 1;
    }
    proof {
        lemma_find_from_skip(inv, name@, 0, inv.len() as int);
    }
    Err(NotFound { name: name.to_owned() })
}

/// One record per configuration file: the inventory's configuration paths
/// are exactly the scanned paths that carry the `.vmx` extension, in scan
/// order and however deeply nested; a file with any other extension yields
/// no record.
pub proof fn lemma_one_record_per_vmx_file(files: Seq<ScanFile>, running: Seq<Seq<char>>)
    ensures
        inventory_spec(files, running).len() == vmx_paths(files).len(),
        forall|i: int|
            0 <= i < inventory_spec(files, running).len() ==> (#[trigger] inventory_spec(
                files,
                running,
            )[i]).vmx == vmx_paths(files)[i],
{
    lemma_inventory_paths(files, running, 0);
}

proof fn lemma_inventory_paths(files: Seq<ScanFile>, running: Seq<Seq<char>>, k: int)
    requires
        0 <= k,
    ensures
        inventory_from(files, running, k).len() == vmx_paths_from(files, k).len(),
        forall|i: int|
            0 <= i < inventory_from(files, running, k).len() ==> (#[trigger] inventory_from(
                files,
                running,
                k,
            )[i]).vmx == vmx_paths_from(files, k)[i],
    decreases files.len() - k,
{
    if k < files.len() {
        lemma_inventory_paths(files, running, k + 1);
        if is_vmx_path(files[k].path@) {
            let inv = inventory_from(files, running, k);
            let paths = vmx_paths_from(files, k);
            assert forall|i: int| 0 <= i < inv.len() implies (#[trigger] inv[i]).vmx
                == paths[i] by {
                if i > 0 {
                    assert(inv[i] == inventory_from(files, running, k + 1)[i - 1]);
                    assert(paths[i] == vmx_paths_from(files, k + 1)[i - 1]);
                }
            }
        }
    }
}

/// A record is running exactly where its configuration path stands verbatim
/// in the control utility's `list` output, the header line excluded.
pub proof fn lemma_running_iff(files: Seq<ScanFile>, output: Seq<Seq<char>>, i: int)
    requires
        0 <= i < inventory_spec(files, running_list_spec(output)).len(),
    ensures
        inventory_spec(files, running_list_spec(output))[i].is_running <==> running_list_spec(
            output,
        ).contains(inventory_spec(files, running_list_spec(output))[i].vmx),
{
    lemma_inventory_running(files, running_list_spec(output), 0, i);
}

proof fn lemma_inventory_running(
    files: Seq<ScanFile>,
    running: Seq<Seq<char>>,
    k: int,
    i: int,
)
    requires
        0 <= k,
        0 <= i < inventory_from(files, running, k).len(),
    ensures
        inventory_from(files, running, k)[i].is_running <==> running.contains(
            inventory_from(files, running, k)[i].vmx,
        ),
    decreases files.len() - k,
{
    if k < files.len() {
        if is_vmx_path(files[k].path@) {
            if i > 0 {
                lemma_inventory_running(files, running, k + 1, i - 1);
            }
        } else {
            lemma_inventory_running(files, running, k + 1, i);
        }
    }
}

/// Lookup is case-insensitive: two requested names with the same lowercase
/// form yield the same record on every inventory.
pub proof fn lemma_find_case_insensitive(inv: Seq<VmModel>, a: Seq<char>, b: Seq<char>)
    requires
        lower_of(a) == lower_of(b),
    ensures
        find_spec(inv, a) == find_spec(inv, b),
{
    lemma_find_from_case(inv, a, b, 0);
}

proof fn lemma_find_from_case(inv: Seq<VmModel>, a: Seq<char>, b: Seq<char>, k: int)
    requires
        lower_of(a) == lower_of(b),
        0 <= k,
    ensures
        find_from(inv, a, k) == find_from(inv, b, k),
    decreases inv.len() - k,
{
    if k < inv.len() {
        lemma_find_from_case(inv, a, b, k + 1);
    }
}

/// A lookup yields nothing exactly where no record's display name equals the
/// requested name without regard to case.
pub proof fn lemma_find_none_iff(inv: Seq<VmModel>, name: Seq<char>)
    ensures
        (find_spec(inv, name) is None) <==> (forall|i: int|
            0 <= i < inv.len() ==> lower_of((#[trigger] inv[i]).name) != lower_of(name)),
{
    lemma_find_from_none_iff(inv, name, 0);
}

proof fn lemma_find_from_none_iff(inv: Seq<VmModel>, name: Seq<char>, k: int)
    requires
        0 <= k,
    ensures
        (find_from(inv, name, k) is None) <==> (forall|i: int|
            k <= i < inv.len() ==> lower_of((#[trigger] inv[i]).name) != lower_of(name)),
    decreases inv.len() - k,
{
    if k < inv.len() {
        lemma_find_from_none_iff(inv, name, k + 1);
    }
}

} // verus!
