//! The requests that the user interface makes, as far as they are decided
//! here: which call of the control utility a request leads to, and what
//! its outcome means for the one who asked.

use crate::ddcutil::{setvcp_args, setvcp_command, texts, ProcessError};
use crate::preset::{builtin_preset, call_views, ordered_calls, preset_calls};
use crate::registry::{first_with_id, ids_of, Registry};
use crate::settings::Settings;
use crate::text::{chars_of, find, find_slice, strip_prefix};
use vstd::prelude::*;

verus! {

/// Why a request failed.
#[derive(Debug)]
pub enum CommandError {
    /// The request names a display that is not in the list.
    DisplayNotFound,
    /// The call of the control utility failed.
    Process(ProcessError),
    /// The settings could not be written; the text says why.
    Persistence(String),
}

impl CommandError {
    /// The message of the error, as text.
    pub open spec fn message_text(&self) -> Seq<char> {
        match self {
            CommandError::DisplayNotFound => "display not found"@,
            CommandError::Process(e) => e.message_text(),
            CommandError::Persistence(cause) => cause@,
        }
    }

    /// The message of the error, as the one who asked is told it.
    pub fn message(&self) -> (m: String)
        ensures
            m@ == self.message_text(),
    {
        match self {
            CommandError::DisplayNotFound => "display not found".to_owned(),
            CommandError::Process(e) => e.message(),
            CommandError::Persistence(cause) => cause.clone(),
        }
    }
}

/// The call that sets the setting `code` of the display `id` to `value`:
/// the arguments for the control utility, which address the display by the
/// key of the first identity of the list that is `id`. Where the list has
/// no such identity the request fails, and there is no call to make.
pub fn plan_set_value(registry: &Registry, id: &str, code: &str, value: u32) -> (r: Result<
    Vec<String>,
    CommandError,
>)
    ensures
        match first_with_id(registry.identities(), id@) {
            Some(d) => r matches Ok(args) && texts(args@) == setvcp_args(
                code@,
                value,
                d.display_key,
            ),
            None => r matches Err(e) && e is DisplayNotFound,
        },
{
    match registry.find_identity(id) {
        Some(d) => Ok(setvcp_command(code, value, d.display_key.as_str())),
        None => Err(CommandError::DisplayNotFound),
    }
}

/// What the outcome of the call that sets a value means for the request:
/// the output of the call is of no interest, its failure is the failure
/// of the request.
pub fn set_value_result(outcome: Result<String, ProcessError>) -> (r: Result<(), CommandError>)
    ensures
        r == match outcome {
            Ok(_) => Ok::<(), CommandError>(()),
            Err(e) => Err(CommandError::Process(e)),
        },
{
    match outcome {
        Ok(_) => Ok(()),
        Err(e) => Err(CommandError::Process(e)),
    }
}

/// The values to set when the preset `preset_id` is applied to the display
/// `target`, in the order in which to set them.
///
/// The request fails if the list has no identity `target`. A preset that
/// is not built in gives no value to set and is no error: the values of a
/// preset that the user has made are set by the one who asks, value by
/// value.
pub fn plan_preset(registry: &Registry, target: &str, preset_id: &str) -> (r: Result<
    Vec<(String, u32)>,
    CommandError,
>)
    ensures
        if ids_of(registry.identities()).contains(target@) {
            r matches Ok(calls) && call_views(calls@) == preset_calls(preset_id@)
        } else {
            r matches Err(e) && e is DisplayNotFound
        },
{
    if !registry.has_identity(target) {
        return Err(CommandError::DisplayNotFound);
    }
    match builtin_preset(preset_id) {
        Some(values) => Ok(ordered_calls(&values)),
        None => {
            let calls: Vec<(String, u32)> = Vec::new();
            assert(call_views(calls@) =~= preset_calls(preset_id@));
            Ok(calls)
        },
    }
}

/// Takes new settings into `held`, given how writing them to their file
/// went: settings that were written replace the held ones as a whole, and
/// settings that could not be written leave the held ones as they are and
/// fail the request.
pub fn store_settings(held: &mut Settings, settings: Settings, written: Result<(), String>) -> (r:
    Result<(), CommandError>)
    ensures
        match written {
            Ok(_) => r is Ok && *final(held) == settings,
            Err(cause) => {
                &&& r == Err::<(), CommandError>(CommandError::Persistence(cause))
                &&& *final(held) == *old(held)
            },
        },
{
    match written {
        Ok(_) => {
            *held = settings;
            Ok(())
        },
        Err(cause) => Err(CommandError::Persistence(cause)),
    }
}

/// What the machine offers for talking to displays.
#[derive(Clone, Copy, Debug)]
pub struct PermissionReport {
    /// The control utility is installed.
    pub ddcutil: bool,
    /// There is at least one I2C device node.
    pub i2c: bool,
    /// The control utility knows the option `--json`.
    pub json_supported: bool,
}

/// Whether one of `names` is the name of an I2C device node.
pub open spec fn names_i2c_node(names: Seq<Seq<char>>) -> bool {
    exists|i: int| 0 <= i < names.len() && "i2c-"@.is_prefix_of(#[trigger] names[i])
}

/// Whether `help` mentions the option `--json`.
pub open spec fn mentions_json(help: Seq<char>) -> bool {
    find(help, "--json"@) is Some
}

/// Whether one of `names` is the name of an I2C device node.
pub fn has_i2c_node(names: &Vec<String>) -> (r: bool)
    ensures
        r == names_i2c_node(texts(names@)),
{
    let prefix = chars_of("i2c-");
    let mut i: usize = 0;
    while i < names.len()
        invariant
            i <= names@.len(),
            prefix@ == "i2c-"@,
            forall|j: int| 0 <= j < i ==> !"i2c-"@.is_prefix_of(#[trigger] texts(names@)[j]),
        decreases names@.len() - i,
    {
        let name = chars_of(names[i].as_str());
        if strip_prefix(name.as_slice(), prefix.as_slice()).is_some() {
            assert("i2c-"@.is_prefix_of(texts(names@)[i as int]));
            return true;
        }
        i += 1;
    }
    false
}

/// The report on the machine, from what was found on it: whether the
/// control utility was found, the names of the entries of the device
/// directory if it could be read, and the help text of the utility if it
/// could be called.
pub fn permission_report(
    ddcutil_found: bool,
    dev_entries: Option<&Vec<String>>,
    help_output: Option<&str>,
) -> (r: PermissionReport)
    ensures
        r.ddcutil == ddcutil_found,
        r.i2c == match dev_entries {
            Some(names) => names_i2c_node(texts(names@)),
            None => false,
        },
        r.json_supported == match help_output {
            Some(help) => ddcutil_found && mentions_json(help@),
            None => false,
        },
{
    let i2c = match dev_entries {
        Some(names) => has_i2c_node(names),
        None => false,
    };
    let json_supported = match help_output {
        Some(help) => {
            if ddcutil_found {
                let text = chars_of(help);
                let option = chars_of("--json");
                find_slice(text.as_slice(), option.as_slice()).is_some()
            } else {
                false
            }
        },
        None => false,
    };
    PermissionReport { ddcutil: ddcutil_found, i2c, json_supported }
}

} // verus!
