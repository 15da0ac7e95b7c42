use vstd::prelude::*;

use crate::command_executor::CommandRequest;
use crate::controller::BridgeController;
use crate::errors::CommandError;
use crate::parse::id_row_ok;
use crate::parse::spec_bridge_id;
use crate::parse::spec_interfaces;
use crate::parse::spec_stp_token;
use crate::parse::stp_row_ok;
use crate::text::spec_decimal;
use crate::text::views_of;

verus! {

/// One named OS bridge.
///
/// The name is the only state held, and it is never empty.  Every attribute
/// (numeric id, spanning-tree state, member interfaces) is fetched on
/// demand: the caller runs the `show` invocation this type builds and hands
/// the captured text back to the parsing methods.
#[derive(Debug)]
pub struct Bridge {
    name: String,
}

impl View for Bridge {
    type V = Seq<char>;

    closed spec fn view(&self) -> Seq<char> {
        self.name@
    }
}

impl Bridge {
    /// Wraps a bridge name as a handle.  A bridge name is never empty.
    pub fn new(name: &str) -> (r: Bridge)
        requires
            name@.len() > 0,
        ensures
            r@ == name@,
    {
        Bridge { name: String::from_str(name) }
    }

    /// The bridge's name.
    pub fn get_name(&self) -> (r: &str)
        ensures
            r@ == self@,
    {
        self.name.as_str()
    }

    /// The invocations that delete this bridge, in the order they must run:
    /// bring the link down, then remove the bridge.
    pub fn delete(&self) -> (r: Vec<CommandRequest>)
        ensures
            crate::controller::spec_delete_plan(self@, r@),
    {
        BridgeController::delete_bridge(self.name.as_str())
    }

    /// The invocation that attaches `interface` to this bridge.
    pub fn add_interface(&self, interface: &str) -> (r: CommandRequest)
        ensures
            r.program@ == "brctl"@,
            r.spec_args() == seq!["addif"@, self@, interface@],
    {
        let mut args: Vec<String> = Vec::new();
        args.push(String::from_str("addif"));
        args.push(self.name.clone());
        args.push(String::from_str(interface));
        let r = CommandRequest { program: String::from_str("brctl"), args };
        proof {
            assert(r.spec_args() =~~= seq!["addif"@, self@, interface@]);
        }
        r
    }

    /// The invocation that detaches `interface` from this bridge.
    pub fn remove_interface(&self, interface: &str) -> (r: CommandRequest)
        ensures
            r.program@ == "brctl"@,
            r.spec_args() == seq!["delif"@, self@, interface@],
    {
        let mut args: Vec<String> = Vec::new();
        args.push(String::from_str("delif"));
        args.push(self.name.clone());
        args.push(String::from_str(interface));
        let r = CommandRequest { program: String::from_str("brctl"), args };
        proof {
            assert(r.spec_args() =~~= seq!["delif"@, self@, interface@]);
        }
        r
    }

    /// The invocation that sets hairpin mode on `port` of this bridge:
    /// `on` to enable, `off` to disable.
    pub fn set_hairpin(&self, port: &str, enable: bool) -> (r: CommandRequest)
        ensures
            r.program@ == "brctl"@,
            enable ==> r.spec_args() == seq!["hairpin"@, self@, port@, "on"@],
            !enable ==> r.spec_args() == seq!["hairpin"@, self@, port@, "off"@],
    {
        let state = if enable {
            "on"
        } else {
            "off"
        };
        let mut args: Vec<String> = Vec::new();
        args.push(String::from_str("hairpin"));
        args.push(self.name.clone());
        args.push(String::from_str(port));
        args.push(String::from_str(state));
        let r = CommandRequest { program: String::from_str("brctl"), args };
        proof {
            if enable {
                assert(r.spec_args() =~~= seq!["hairpin"@, self@, port@, "on"@]);
            } else {
                assert(r.spec_args() =~~= seq!["hairpin"@, self@, port@, "off"@]);
            }
        }
        r
    }

    /// The invocation that toggles the spanning-tree protocol on this
    /// bridge: `on` to enable, `off` to disable.
    pub fn set_stp(&self, enable: bool) -> (r: CommandRequest)
        ensures
            r.program@ == "brctl"@,
            enable ==> r.spec_args() == seq!["stp"@, self@, "on"@],
            !enable ==> r.spec_args() == seq!["stp"@, self@, "off"@],
    {
        let state = if enable {
            "on"
        } else {
            "off"
        };
        let mut args: Vec<String> = Vec::new();
        args.push(String::from_str("stp"));
        args.push(self.name.clone());
        args.push(String::from_str(state));
        let r = CommandRequest { program: String::from_str("brctl"), args };
        proof {
            if enable {
                assert(r.spec_args() =~~= seq!["stp"@, self@, "on"@]);
            } else {
                assert(r.spec_args() =~~= seq!["stp"@, self@, "off"@]);
            }
        }
        r
    }

    /// The invocation that sets the ageing time of this bridge, in seconds,
    /// rendered in decimal.
    pub fn set_ageing_time(&self, time: u32) -> (r: CommandRequest)
        ensures
            r.program@ == "brctl"@,
            r.spec_args() == seq!["setageing"@, self@, spec_decimal(time as int)],
    {
        let mut args: Vec<String> = Vec::new();
        args.push(String::from_str("setageing"));
        args.push(self.name.clone());
        args.push(crate::text::u32_to_string(time));
        let r = CommandRequest { program: String::from_str("brctl"), args };
        proof {
            assert(r.spec_args() =~~= seq!["setageing"@, self@, spec_decimal(time as int)]);
        }
        r
    }

    /// The invocation that fetches this bridge's details: the listing
    /// command scoped to its name.
    pub fn show(&self) -> (r: CommandRequest)
        ensures
            r.program@ == "brctl"@,
            r.spec_args() == seq!["show"@, self@],
    {
        let mut args: Vec<String> = Vec::new();
        args.push(String::from_str("show"));
        args.push(self.name.clone());
        let r = CommandRequest { program: String::from_str("brctl"), args };
        proof {
            assert(r.spec_args() =~~= seq!["show"@, self@]);
        }
        r
    }

    /// The bridge id, extracted from the captured output of this bridge's
    /// `show` invocation: second column of the first data row.
    pub fn get_id(&self, details: &str) -> (r: Result<String, CommandError>)
        ensures
            id_row_ok(details@) ==> (r matches Ok(id) && id@ == spec_bridge_id(details@)),
            !id_row_ok(details@) ==> (r matches Err(e) && e
                matches CommandError::ExecutionError(m) && m@ == "Failed to get bridge ID"@),
    {
        crate::parse::parse_bridge_id(details)
    }

    /// The member interfaces, extracted from the captured output of this
    /// bridge's `show` invocation; may be empty.
    pub fn get_interfaces(&self, details: &str) -> (r: Vec<String>)
        ensures
            views_of(r@) == spec_interfaces(details@),
    {
        crate::parse::parse_interfaces(details)
    }

    /// The spanning-tree state, extracted from the captured output of this
    /// bridge's `show` invocation: `yes` is enabled, `no` disabled, and any
    /// other value its own distinct failure.
    pub fn get_stp(&self, details: &str) -> (r: Result<bool, CommandError>)
        ensures
            !stp_row_ok(details@) ==> (r matches Err(e) && e
                matches CommandError::ExecutionError(m) && m@
                == "Failed to determine STP state"@),
            stp_row_ok(details@) && spec_stp_token(details@) == "yes"@ ==> r == Ok::<
                bool,
                CommandError,
            >(true),
            stp_row_ok(details@) && spec_stp_token(details@) == "no"@ ==> r == Ok::<
                bool,
                CommandError,
            >(false),
            stp_row_ok(details@) && spec_stp_token(details@) != "yes"@ && spec_stp_token(
                details@,
            ) != "no"@ ==> (r matches Err(e) && e matches CommandError::ExecutionError(m) && m@
                == "Unknown STP state: "@ + spec_stp_token(details@)),
    {
        crate::parse::parse_stp(details)
    }
}

} // verus!
