use vstd::prelude::*;

use crate::bridge::Bridge;
use crate::command_executor::CommandRequest;
use crate::errors::CommandError;
use crate::parse::has_version;
use crate::parse::id_row_ok;
use crate::parse::parse_bridge_names;
use crate::parse::spec_bridge_id;
use crate::parse::spec_bridge_names;
use crate::parse::spec_link_names;
use crate::parse::spec_version;
use crate::text::spec_decimal;
use crate::text::views_of;

verus! {

/// The invocations that create a bridge, in the order they must run:
/// create the bridge, then bring its link up.
pub open spec fn spec_create_plan(name: Seq<char>, r: Seq<CommandRequest>) -> bool {
    &&& r.len() == 2
    &&& r[0].program@ == "brctl"@
    &&& r[0].spec_args() == seq!["addbr"@, name]
    &&& r[1].program@ == "ip"@
    &&& r[1].spec_args() == seq!["link"@, "set"@, "dev"@, name, "up"@]
}

/// The invocations that delete a bridge, in the order they must run:
/// bring its link down, then remove the bridge.
pub open spec fn spec_delete_plan(name: Seq<char>, r: Seq<CommandRequest>) -> bool {
    &&& r.len() == 2
    &&& r[0].program@ == "ip"@
    &&& r[0].spec_args() == seq!["link"@, "set"@, "dev"@, name, "down"@]
    &&& r[1].program@ == "brctl"@
    &&& r[1].spec_args() == seq!["delbr"@, name]
}

/// Scanning bridges in order for the one whose id parses to `id`: absence
/// is a plain `None`, while a listed bridge whose id cannot be extracted
/// before a match is found is a failure of its own.
pub open spec fn spec_lookup_by_id(
    names: Seq<Seq<char>>,
    details: Seq<Seq<char>>,
    id: Seq<char>,
) -> Result<Option<Seq<char>>, ()>
    decreases names.len(),
{
    if names.len() == 0 {
        Ok(None)
    } else if !id_row_ok(details[0]) {
        Err(())
    } else if spec_bridge_id(details[0]) == id {
        Ok(Some(names[0]))
    } else {
        spec_lookup_by_id(names.drop_first(), details.drop_first(), id)
    }
}

/// The stateless façade over the two external tools: bridge lifecycle
/// operations and the environment check.  Every operation either builds
/// the exact invocations to run or interprets captured output; no state is
/// retained between calls.
pub struct BridgeController;

impl BridgeController {
    /// The invocation that queries the bridge tool's version banner.
    pub fn version_request() -> (r: CommandRequest)
        ensures
            r.program@ == "brctl"@,
            r.spec_args() == seq!["--version"@],
    {
        let mut args: Vec<String> = Vec::new();
        args.push(String::from_str("--version"));
        let r = CommandRequest { program: String::from_str("brctl"), args };
        proof {
            assert(r.spec_args() =~~= seq!["--version"@]);
        }
        r
    }

    /// The invocation that lists the OS's network links.
    pub fn link_request() -> (r: CommandRequest)
        ensures
            r.program@ == "ip"@,
            r.spec_args() == seq!["link"@],
    {
        let mut args: Vec<String> = Vec::new();
        args.push(String::from_str("link"));
        let r = CommandRequest { program: String::from_str("ip"), args };
        proof {
            assert(r.spec_args() =~~= seq!["link"@]);
        }
        r
    }

    /// The invocation that lists all bridges: the listing command with no
    /// name filter.
    pub fn list_request() -> (r: CommandRequest)
        ensures
            r.program@ == "brctl"@,
            r.spec_args() == seq!["show"@],
    {
        let mut args: Vec<String> = Vec::new();
        args.push(String::from_str("show"));
        let r = CommandRequest { program: String::from_str("brctl"), args };
        proof {
            assert(r.spec_args() =~~= seq!["show"@]);
        }
        r
    }

    /// The environment check, on the captured outputs of `version_request`
    /// and `link_request`: extracts the bridge tool's `major.minor` version
    /// from its banner and the link tool's interface names from its
    /// listing.  A banner without the version pattern is an execution
    /// failure.
    pub fn check(version_output: &str, link_output: &str) -> (r: Result<
        (String, Vec<String>),
        CommandError,
    >)
        ensures
            has_version(version_output@) ==> (r matches Ok(p) && p.0@ == spec_version(
                version_output@,
            ) && views_of(p.1@) == spec_link_names(link_output@)),
            !has_version(version_output@) ==> (r matches Err(e) && e
                matches CommandError::ExecutionError(m) && m@
                == "Failed to parse brctl version"@),
    {
        match crate::parse::parse_version(version_output) {
            Some(version) => {
                let interfaces = crate::parse::parse_link_names(link_output);
                Ok((version, interfaces))
            },
            None => Err(
                CommandError::ExecutionError(String::from_str("Failed to parse brctl version")),
            ),
        }
    }

    /// The invocations that create the bridge `name`, with the handle to
    /// return once they have run in order.
    pub fn create_bridge(name: &str) -> (r: (Vec<CommandRequest>, Bridge))
        requires
            name@.len() > 0,
        ensures
            spec_create_plan(name@, r.0@),
            r.1@ == name@,
    {
        let mut args0: Vec<String> = Vec::new();
        args0.push(String::from_str("addbr"));
        args0.push(String::from_str(name));
        let first = CommandRequest { program: String::from_str("brctl"), args: args0 };
        let mut args1: Vec<String> = Vec::new();
        args1.push(String::from_str("link"));
        args1.push(String::from_str("set"));
        args1.push(String::from_str("dev"));
        args1.push(String::from_str(name));
        args1.push(String::from_str("up"));
        let second = CommandRequest { program: String::from_str("ip"), args: args1 };
        let mut plan: Vec<CommandRequest> = Vec::new();
        proof {
            assert(first.spec_args() =~~= seq!["addbr"@, name@]);
            assert(second.spec_args() =~~= seq!["link"@, "set"@, "dev"@, name@, "up"@]);
        }
        plan.push(first);
        plan.push(second);
        (plan, Bridge::new(name))
    }

    /// The invocations that delete the bridge `name`, in the order they
    /// must run.
    pub fn delete_bridge(name: &str) -> (r: Vec<CommandRequest>)
        ensures
            spec_delete_plan(name@, r@),
    {
        let mut args0: Vec<String> = Vec::new();
        args0.push(String::from_str("link"));
        args0.push(String::from_str("set"));
        args0.push(String::from_str("dev"));
        args0.push(String::from_str(name));
        args0.push(String::from_str("down"));
        let first = CommandRequest { program: String::from_str("ip"), args: args0 };
        let mut args1: Vec<String> = Vec::new();
        args1.push(String::from_str("delbr"));
        args1.push(String::from_str(name));
        let second = CommandRequest { program: String::from_str("brctl"), args: args1 };
        let mut plan: Vec<CommandRequest> = Vec::new();
        proof {
            assert(first.spec_args() =~~= seq!["link"@, "set"@, "dev"@, name@, "down"@]);
            assert(second.spec_args() =~~= seq!["delbr"@, name@]);
        }
        plan.push(first);
        plan.push(second);
        plan
    }

    /// The bridges named by the captured output of `list_request`: one
    /// handle per data row, in table order.  A table with no data rows
    /// yields the empty list, not an error.
    pub fn list_bridges(output: &str) -> (r: Vec<Bridge>)
        ensures
            r@.map_values(|b: Bridge| b@) == spec_bridge_names(output@),
    {
        let names = parse_bridge_names(output);
        let mut r: Vec<Bridge> = Vec::new();
        let mut i: usize = 0;
        while i < names.len()
            invariant
                i <= names@.len(),
                r@.len() == i,
                views_of(names@) == spec_bridge_names(output@),
                forall|k: int| 0 <= k < names@.len() ==> #[trigger] names@[k]@.len() > 0,
                forall|k: int| 0 <= k < i ==> #[trigger] r@[k]@ == names@[k]@,
            decreases names@.len() - i,
        {
            proof {
                assert(names@[i as int]@ == views_of(names@)[i as int]);
            }
            r.push(Bridge::new(names[i].as_str()));
            i = i + 1;
        }
        proof {
            assert forall|k: int| 0 <= k < names@.len() implies #[trigger] names@[k]@
                == views_of(names@)[k] by {}
            assert(r@.map_values(|b: Bridge| b@) =~~= views_of(names@));
        }
        r
    }

    /// Looks the bridge `name` up in the captured output of
    /// `list_request`.  A name that is not listed is a plain absence, not
    /// an error.
    pub fn get_bridge(name: &str, listing: &str) -> (r: Option<Bridge>)
        ensures
            r is Some <==> spec_bridge_names(listing@).contains(name@),
            r matches Some(b) ==> b@ == name@,
    {
        let names = parse_bridge_names(listing);
        let target = String::from_str(name);
        let mut i: usize = 0;
        while i < names.len()
            invariant
                i <= names@.len(),
                target@ == name@,
                views_of(names@) == spec_bridge_names(listing@),
                forall|k: int| 0 <= k < names@.len() ==> #[trigger] names@[k]@.len() > 0,
                forall|k: int| 0 <= k < i ==> views_of(names@)[k] != name@,
            decreases names@.len() - i,
        {
            proof {
                assert(names@[i as int]@ == views_of(names@)[i as int]);
            }
            if names[i].eq(&target) {
                return Some(Bridge::new(name));
            }
            i = i + 1;
        }
        proof {
            assert forall|k: int|
                0 <= k < spec_bridge_names(listing@).len() implies spec_bridge_names(listing@)[k]
                != name@ by {}
        }
        None
    }

    /// Looks a bridge up by its numeric id, rendered in decimal, over the
    /// captured output of `list_request` and, for each listed bridge in
    /// order, the captured output of its scoped `show` invocation.  A
    /// listed bridge whose id cannot be extracted before a match is found
    /// propagates that extraction failure.
    pub fn get_bridge_by_id(id: u32, listing: &str, details: &Vec<String>) -> (r: Result<
        Option<Bridge>,
        CommandError,
    >)
        requires
            details@.len() == spec_bridge_names(listing@).len(),
        ensures
            spec_lookup_by_id(
                spec_bridge_names(listing@),
                views_of(details@),
                spec_decimal(id as int),
            ) matches Ok(Some(nm)) ==> (r matches Ok(Some(b)) && b@ == nm),
            spec_lookup_by_id(
                spec_bridge_names(listing@),
                views_of(details@),
                spec_decimal(id as int),
            ) matches Ok(None) ==> r matches Ok(None),
            spec_lookup_by_id(
                spec_bridge_names(listing@),
                views_of(details@),
                spec_decimal(id as int),
            ) is Err ==> (r matches Err(e) && e matches CommandError::ExecutionError(m) && m@
                == "Failed to get bridge ID"@),
    {
        let ghost all_names = spec_bridge_names(listing@);
        let ghost all_details = views_of(details@);
        let ghost target = spec_decimal(id as int);
        let names = parse_bridge_names(listing);
        let id_text = crate::text::u32_to_string(id);
        let mut i: usize = 0;
        proof {
            assert(all_names.skip(0) =~~= all_names);
            assert(all_details.skip(0) =~~= all_details);
        }
        while i < names.len()
            invariant
                i <= names@.len(),
                id_text@ == target,
                views_of(names@) == all_names,
                all_names == spec_bridge_names(listing@),
                all_details == views_of(details@),
                target == spec_decimal(id as int),
                details@.len() == all_names.len(),
                forall|k: int| 0 <= k < names@.len() ==> #[trigger] names@[k]@.len() > 0,
                spec_lookup_by_id(all_names, all_details, target) == spec_lookup_by_id(
                    all_names.skip(i as int),
                    all_details.skip(i as int),
                    target,
                ),
            decreases names@.len() - i,
        {
            proof {
                assert(names@[i as int]@ == views_of(names@)[i as int]);
                assert(details@[i as int]@ == views_of(details@)[i as int]);
                assert(all_names.skip(i as int)[0] == all_names[i as int]);
                assert(all_details.skip(i as int)[0] == all_details[i as int]);
            }
            match crate::parse::parse_bridge_id(details[i].as_str()) {
                Err(e) => {
                    return Err(e);
                },
                Ok(bridge_id) => {
                    if bridge_id.eq(&id_text) {
                        return Ok(Some(Bridge::new(names[i].as_str())));
                    }
                },
            }
            proof {
                assert(all_names.skip(i as int).drop_first() =~~= all_names.skip(i as int + 1));
                assert(all_details.skip(i as int).drop_first() =~~= all_details.skip(
                    i as int + 1,
                ));
            }
            i = i + 1;
        }
        proof {
            assert(all_names.skip(all_names.len() as int).len() == 0);
        }
        Ok(None)
    }

    /// Whether the bridge `name` occurs in the captured output of
    /// `list_request`.
    pub fn check_bridge_exists(name: &str, listing: &str) -> (r: bool)
        ensures
            r <==> spec_bridge_names(listing@).contains(name@),
    {
        let found = Self::get_bridge(name, listing);
        match found {
            Some(_) => true,
            None => false,
        }
    }
}

} // verus!
