//! Checking a turn's access, and the cross-package workflow tools it may
//! invoke, against the active governance envelope.
use vstd::prelude::*;
use crate::access::TRACKER_RESOURCE;
use crate::executor::WorkflowToolEntry;
use crate::order::views;
use crate::text::str_eq;
use crate::turn::TurnToolAccess;

verus! {

/// What loading the active governance envelope gave: none configured, one
/// that was rejected (with why), or one that verified. For a verified
/// envelope the caller asks it, resource by resource, whether it governs.
#[derive(Clone, Debug)]
pub enum EnvelopeStatus {
    Ungoverned,
    Rejected(String),
    Verified,
}

/// The resources a turn's access touches: its file stores, `command` where
/// it may run commands, and the tracker where it may change tracker state.
pub open spec fn access_resources(access: TurnToolAccess) -> Seq<Seq<char>> {
    let files = views(access.file_resources@);
    let with_command = if access.command_run {
        files.push("command"@)
    } else {
        files
    };
    if access.tracker.file || access.tracker.claim || access.tracker.finish || access.tracker.release {
        with_command.push(TRACKER_RESOURCE@)
    } else {
        with_command
    }
}

/// The resources a turn's access touches, in order.
pub fn turn_access_resources(access: &TurnToolAccess) -> (r: Vec<String>)
    ensures
        views(r@) == access_resources(*access),
{
    let mut r: Vec<String> = Vec::new();
    let mut i: usize = 0;
    while i < access.file_resources.len()
        invariant
            i <= access.file_resources.len(),
            views(r@) == views(access.file_resources@).subrange(0, i as int),
        decreases access.file_resources.len() - i,
    {
        let ghost before = r@;
        r.push(access.file_resources[i].clone());
        assert(views(r@) =~= views(before).push(access.file_resources@[i as int]@));
        i += 1;
        assert(views(access.file_resources@).subrange(0, i as int) =~= views(access.file_resources@).subrange(
            0,
            i - 1,
        ).push(access.file_resources@[i - 1]@));
    }
    assert(views(access.file_resources@).subrange(0, access.file_resources.len() as int) =~= views(
        access.file_resources@,
    ));
    if access.command_run {
        let ghost before = r@;
        r.push("command".to_owned());
        assert(views(r@) =~= views(before).push("command"@));
    }
    if access.tracker.mutates() {
        let ghost before = r@;
        r.push(TRACKER_RESOURCE.to_owned());
        assert(views(r@) =~= views(before).push(TRACKER_RESOURCE@));
    }
    r
}

/// The items of `items` whose flag is false, in order.
pub open spec fn unflagged(items: Seq<Seq<char>>, flags: Seq<bool>) -> Seq<Seq<char>>
    decreases items.len(),
{
    if items.len() == 0 {
        Seq::empty()
    } else {
        let rest = unflagged(items.drop_last(), flags);
        if flags[items.len() - 1] {
            rest
        } else {
            rest.push(items.last())
        }
    }
}

/// `parts` joined with `", "` between them.
pub open spec fn comma_joined(parts: Seq<Seq<char>>) -> Seq<char>
    decreases parts.len(),
{
    if parts.len() == 0 {
        Seq::empty()
    } else if parts.len() == 1 {
        parts[0]
    } else {
        comma_joined(parts.drop_last()) + ", "@ + parts.last()
    }
}

/// `parts` joined with `", "` between them.
fn join_comma(parts: &Vec<String>) -> (r: String)
    ensures
        r@ == comma_joined(views(parts@)),
{
    let mut r = String::new();
    let mut i: usize = 0;
    proof {
        reveal_strlit("");
    }
    while i < parts.len()
        invariant
            i <= parts.len(),
            r@ == comma_joined(views(parts@).subrange(0, i as int)),
        decreases parts.len() - i,
    {
        proof {
            assert(views(parts@).subrange(0, i + 1).drop_last() =~= views(parts@).subrange(0, i as int));
            assert(views(parts@).subrange(0, i + 1).last() == parts@[i as int]@);
        }
        if i > 0 {
            r.append(", ");
        } else {
            assert(r@ =~= Seq::<char>::empty());
        }
        r.append(parts[i].as_str());
        proof {
            if i == 0 {
                assert(r@ =~= views(parts@).subrange(0, 1)[0]);
            }
        }
        i += 1;
    }
    assert(views(parts@).subrange(0, parts.len() as int) =~= views(parts@));
    r
}

/// The items whose flag is false.
fn unflagged_items(items: &Vec<String>, flags: &Vec<bool>) -> (r: Vec<String>)
    requires
        flags.len() == items.len(),
    ensures
        views(r@) == unflagged(views(items@), flags@),
{
    let mut r: Vec<String> = Vec::new();
    let mut i: usize = 0;
    while i < items.len()
        invariant
            i <= items.len(),
            flags.len() == items.len(),
            views(r@) == unflagged(views(items@).subrange(0, i as int), flags@),
        decreases items.len() - i,
    {
        proof {
            assert(views(items@).subrange(0, i + 1).drop_last() =~= views(items@).subrange(0, i as int));
            assert(views(items@).subrange(0, i + 1).last() == items@[i as int]@);
        }
        if !flags[i] {
            let ghost before = r@;
            r.push(items[i].clone());
            assert(views(r@) =~= views(before).push(items@[i as int]@));
        }
        i += 1;
    }
    assert(views(items@).subrange(0, items.len() as int) =~= views(items@));
    r
}

/// What the envelope says of a list of resources: fine when ungoverned;
/// the rejection, prefixed, when rejected; when verified, fine if it
/// governs them all, else `prefix` then the ungoverned ones joined.
pub open spec fn governance_verdict(status: EnvelopeStatus, items: Seq<Seq<char>>, governed: Seq<bool>, prefix: Seq<char>) -> Result<(), Seq<char>> {
    match status {
        EnvelopeStatus::Ungoverned => Ok(()),
        EnvelopeStatus::Rejected(message) => Err("governance envelope rejected: "@ + message@),
        EnvelopeStatus::Verified => {
            let missing = unflagged(items, governed);
            if missing.len() == 0 {
                Ok(())
            } else {
                Err(prefix + comma_joined(missing))
            }
        },
    }
}

/// The view of a unit result.
pub open spec fn verdict_view(r: Result<(), String>) -> Result<(), Seq<char>> {
    match r {
        Ok(_) => Ok(()),
        Err(e) => Err(e@),
    }
}

fn verdict(status: &EnvelopeStatus, items: &Vec<String>, governed: &Vec<bool>, prefix: &str) -> (r: Result<(), String>)
    requires
        *status is Verified ==> governed.len() == items.len(),
    ensures
        verdict_view(r) == governance_verdict(*status, views(items@), governed@, prefix@),
{
    match status {
        EnvelopeStatus::Ungoverned => Ok(()),
        EnvelopeStatus::Rejected(message) => {
            let mut m = "governance envelope rejected: ".to_owned();
            m.append(message.as_str());
            Err(m)
        },
        EnvelopeStatus::Verified => {
            let missing = unflagged_items(items, governed);
            if missing.len() == 0 {
                Ok(())
            } else {
                let mut m = prefix.to_owned();
                let joined = join_comma(&missing);
                m.append(joined.as_str());
                Err(m)
            }
        },
    }
}

/// Whether the active envelope allows a turn's access: `governed[i]` is the
/// verified envelope's answer for the `i`th resource of
/// `turn_access_resources(access)`.
pub fn enforce_turn_access_governance(access: &TurnToolAccess, status: &EnvelopeStatus, governed: &Vec<bool>) -> (r: Result<(), String>)
    requires
        *status is Verified ==> governed.len() == access_resources(*access).len(),
    ensures
        verdict_view(r) == governance_verdict(
            *status,
            access_resources(*access),
            governed@,
            "turn access grants resource(s) not governed by the active envelope: "@,
        ),
{
    let resources = turn_access_resources(access);
    verdict(status, &resources, governed, "turn access grants resource(s) not governed by the active envelope: ")
}

/// The invoke doors of the workflow tools from other packages than
/// `local_package`: `invoke:<package>/<name>` for each, in order.
pub open spec fn invoke_doors(entries: Seq<WorkflowToolEntry>, local_package: Seq<char>) -> Seq<(Seq<char>, Seq<char>)>
    decreases entries.len(),
{
    if entries.len() == 0 {
        Seq::empty()
    } else {
        let rest = invoke_doors(entries.drop_last(), local_package);
        let e = entries.last();
        if e.package_id@ == local_package {
            rest
        } else {
            rest.push((e.name@, "invoke:"@ + e.package_id@ + "/"@ + e.name@))
        }
    }
}

/// The invoke doors of the cross-package workflow tools: each tool's name
/// and its `invoke:<package>/<name>` resource.
pub fn workflow_invoke_doors(entries: &Vec<WorkflowToolEntry>, local_package: &str) -> (r: Vec<(String, String)>)
    ensures
        r@.map_values(|d: (String, String)| (d.0@, d.1@)) == invoke_doors(entries@, local_package@),
{
    let mut r: Vec<(String, String)> = Vec::new();
    let mut i: usize = 0;
    while i < entries.len()
        invariant
            i <= entries.len(),
            r@.map_values(|d: (String, String)| (d.0@, d.1@)) == invoke_doors(entries@.subrange(0, i as int), local_package@),
        decreases entries.len() - i,
    {
        proof {
            assert(entries@.subrange(0, i + 1).drop_last() =~= entries@.subrange(0, i as int));
            assert(entries@.subrange(0, i + 1).last() == entries@[i as int]);
        }
        let e = &entries[i];
        if !str_eq(e.package_id.as_str(), local_package) {
            let mut door = "invoke:".to_owned();
            door.append(e.package_id.as_str());
            door.append("/");
            door.append(e.name.as_str());
            let ghost before = r@;
            r.push((e.name.clone(), door));
            assert(r@.map_values(|d: (String, String)| (d.0@, d.1@)) =~= before.map_values(
                |d: (String, String)| (d.0@, d.1@),
            ).push((e.name@, "invoke:"@ + e.package_id@ + "/"@ + e.name@)));
        }
        i += 1;
    }
    assert(entries@.subrange(0, entries.len() as int) =~= entries@);
    r
}

/// How a door is reported: `<name> (<resource>)`.
pub open spec fn door_label(d: (Seq<char>, Seq<char>)) -> Seq<char> {
    d.0 + " ("@ + d.1 + ")"@
}

/// Whether the active envelope governs the invoke doors of the
/// cross-package workflow tools: fine where there are none, or the
/// envelope is ungoverned; `governed[i]` is the verified envelope's answer
/// for the resource of the `i`th door of `workflow_invoke_doors`.
pub fn enforce_workflow_tool_invoke_governance(
    entries: &Vec<WorkflowToolEntry>,
    local_package: &str,
    status: &EnvelopeStatus,
    governed: &Vec<bool>,
) -> (r: Result<(), String>)
    requires
        *status is Verified ==> governed.len() == invoke_doors(entries@, local_package@).len(),
    ensures
        invoke_doors(entries@, local_package@).len() == 0 ==> r is Ok,
        invoke_doors(entries@, local_package@).len() > 0 ==> verdict_view(r) == governance_verdict(
            *status,
            invoke_doors(entries@, local_package@).map_values(|d: (Seq<char>, Seq<char>)| door_label(d)),
            governed@,
            "cross-package workflow tool invoke door(s) not governed by the active envelope: "@,
        ),
{
    let doors = workflow_invoke_doors(entries, local_package);
    if doors.len() == 0 {
        return Ok(());
    }
    let mut labels: Vec<String> = Vec::new();
    let mut i: usize = 0;
    let ghost dv = doors@.map_values(|d: (String, String)| (d.0@, d.1@));
    while i < doors.len()
        invariant
            i <= doors.len(),
            dv == doors@.map_values(|d: (String, String)| (d.0@, d.1@)),
            views(labels@) == dv.subrange(0, i as int).map_values(|d: (Seq<char>, Seq<char>)| door_label(d)),
        decreases doors.len() - i,
    {
        let mut label = doors[i].0.clone();
        label.append(" (");
        label.append(doors[i].1.as_str());
        label.append(")");
        let ghost before = labels@;
        assert(dv[i as int] == (doors@[i as int].0@, doors@[i as int].1@));
        assert(label@ == door_label(dv[i as int]));
        labels.push(label);
        assert(views(labels@) =~= views(before).push(door_label(dv[i as int])));
        assert(dv.subrange(0, i + 1).map_values(|d: (Seq<char>, Seq<char>)| door_label(d)) =~= dv.subrange(0, i as int).map_values(|d: (Seq<char>, Seq<char>)| door_label(d)).push(door_label(dv[i as int])));
        assert(views(labels@) =~= dv.subrange(0, i + 1).map_values(|d: (Seq<char>, Seq<char>)| door_label(d)));
        i += 1;
    }
    assert(dv.subrange(0, doors.len() as int) =~= dv);
    verdict(
        status,
        &labels,
        governed,
        "cross-package workflow tool invoke door(s) not governed by the active envelope: ",
    )
}

} // verus!
