//! Inventory and control of desktop virtual machines.
//!
//! A VM is described by a `.vmx` configuration file; its display name is a
//! `displayname = "<value>"` line inside that file, and its running state
//! comes from the `list` output of the external `vmrun` control utility.
//! This crate holds the verified core: recognising configuration files,
//! extracting display names, building the inventory, and looking a VM up by
//! name. Reading files, walking directories and spawning the control utility
//! are left to the caller, who hands the gathered text in as plain values.

mod config;
mod inventory;
mod runtime;

pub use config::extract_from;
pub use config::extract_line_name;
pub use config::extract_name_spec;
pub use config::extract_vmx_name;
pub use config::lemma_extract_first_match;
pub use config::lemma_extract_line_form;
pub use config::lemma_extract_no_match;
pub use config::line_matches;
pub use config::line_value;
pub use config::name_prefix;
pub use config::unknown_name;
pub use inventory::NotFound;
pub use inventory::ScanFile;
pub use inventory::Vm;
pub use inventory::VmModel;
pub use inventory::find_from;
pub use inventory::find_spec;
pub use inventory::get_vm;
pub use inventory::get_vms;
pub use inventory::has_vmx_extension;
pub use inventory::inventory_from;
pub use inventory::inventory_spec;
pub use inventory::is_vmx_path;
pub use inventory::file_name_start;
pub use inventory::lemma_find_case_insensitive;
pub use inventory::lemma_find_none_iff;
pub use inventory::lemma_one_record_per_vmx_file;
pub use inventory::lemma_running_iff;
pub use inventory::lower_of;
pub use inventory::models_of;
pub use inventory::vm_model_of;
pub use inventory::vmx_paths;
pub use inventory::vmx_paths_from;
pub use runtime::Action;
pub use runtime::get_running_vms;
pub use runtime::running_list_spec;
