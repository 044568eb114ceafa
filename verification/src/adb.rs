//! Commands for `adb`, and what its output says.

use vstd::prelude::*;

use crate::error::ScrcpyError;
use crate::text::{concat, from_chars, same_chars, split_lines, split_words, to_chars, to_decimal};

verus! {

/// An `adb` program, by its path. Each command is given as the list of its arguments.
#[derive(Debug, Clone)]
pub struct AdbClient {
    pub adb_path: String,
}

/// What running a program gave: its exit, with standard output and standard error, or the reason
/// why it did not run.
pub enum CommandOutcome {
    Finished { success: bool, stdout: Vec<u8>, stderr: Vec<u8> },
    NotRun(String),
}

/// The device that a line of the output of `adb devices` lists as ready.
pub open spec fn device_of_line(line: Seq<char>) -> Option<Seq<char>> {
    let parts = crate::text::words(line);
    if parts.len() >= 2 && parts[1] == "device"@ {
        Some(parts[0])
    } else {
        None
    }
}

/// The devices in lines of the output of `adb devices`, in order.
pub open spec fn devices_in(lines: Seq<Seq<char>>) -> Seq<Seq<char>>
    decreases lines.len(),
{
    if lines.len() == 0 {
        Seq::empty()
    } else {
        let before = devices_in(lines.drop_last());
        match device_of_line(lines.last()) {
            Some(id) => before.push(id),
            None => before,
        }
    }
}

/// The devices that the output of `adb devices` lists as ready. The first line is a heading.
pub open spec fn listed_devices(output: Seq<char>) -> Seq<Seq<char>> {
    let ls = crate::text::lines(output);
    devices_in(ls.skip(if ls.len() > 0 { 1 } else { 0 }))
}

/// The local end of a port forwarding.
pub open spec fn local_end(port: u16) -> Seq<char> {
    "tcp:"@ + crate::text::decimal(port as nat)
}

fn local_text(port: u16) -> (r: String)
    ensures
        r@ == local_end(port),
{
    concat("tcp:", to_decimal(port as u64).as_str())
}

impl AdbClient {
    /// The `adb` at a path.
    pub fn new(adb_path: String) -> (r: Self)
        ensures
            r.adb_path == adb_path,
    {
        AdbClient { adb_path }
    }

    /// What a command's outcome means: its output, or an error where it failed or did not run.
    pub fn execute(outcome: CommandOutcome) -> (r: Result<String, ScrcpyError>)
        ensures
            match outcome {
                CommandOutcome::Finished { success, stdout, stderr } => if success {
                    r matches Ok(out) && out@ == crate::text::lossy(stdout@)
                } else {
                    r matches Err(e) && e@ == crate::error::ErrorView::Adb(
                        "ADB command failed: "@ + crate::text::lossy(stderr@),
                    )
                },
                CommandOutcome::NotRun(m) => r matches Err(e) && e@ == crate::error::ErrorView::Adb(
                    "Failed to execute ADB: "@ + m@,
                ),
            },
    {
        match outcome {
            CommandOutcome::Finished { success, stdout, stderr } => {
                if success {
                    Ok(crate::text::lossy_text(stdout.as_slice()))
                } else {
                    Err(
                        ScrcpyError::Adb(
                            concat(
                                "ADB command failed: ",
                                crate::text::lossy_text(stderr.as_slice()).as_str(),
                            ),
                        ),
                    )
                }
            },
            CommandOutcome::NotRun(m) => Err(
                ScrcpyError::Adb(concat("Failed to execute ADB: ", m.as_str())),
            ),
        }
    }

    /// The arguments that list the devices.
    pub fn devices_args() -> (r: Vec<String>)
        ensures
            crate::text::strings_view(r@) == seq!["devices"@],
    {
        let mut args: Vec<String> = Vec::new();
        args.push("devices".to_owned());
        assert(crate::text::strings_view(args@) =~= seq!["devices"@]);
        args
    }

    /// The devices that are ready, from the output of the command that lists them.
    pub fn list_devices(output: &str) -> (r: Vec<String>)
        ensures
            crate::text::strings_view(r@) == listed_devices(output@),
    {
        let all = to_chars(output);
        let ls = split_lines(all.as_slice());
        let ghost lines = crate::text::lines(output@);
        let ghost body = lines.skip(if lines.len() > 0 { 1 } else { 0 });
        let mut out: Vec<String> = Vec::new();
        let wanted = to_chars("device");
        let mut i: usize = 1;
        assert(crate::text::strings_view(out@) =~= Seq::empty());
        assert(body.take(0) =~= Seq::empty());
        assert(ls@.len() == lines.len());
        while i < ls.len()
            invariant
                1 <= i,
                ls@.len() == lines.len(),
                ls@.len() > 0 ==> i <= ls@.len(),
                crate::text::texts_view(ls@) == lines,
                lines == crate::text::lines(output@),
                body == lines.skip(if lines.len() > 0 { 1 } else { 0 }),
                wanted@ == "device"@,
                ls@.len() > 0 ==> crate::text::strings_view(out@) == devices_in(body.take(i - 1)),
                ls@.len() == 0 ==> out@.len() == 0,
            decreases ls.len() - i,
        {
            let parts = split_words(ls[i].as_slice());
            let ghost before = out@;
            let ghost line = lines[i as int];
            let ghost ws = crate::text::words(line);
            proof {
                assert(ls@[i as int]@ == line);
                assert(parts@.len() == ws.len());
                assert(body.take(i as int).drop_last() =~= body.take(i - 1));
                assert(body.take(i as int).last() == line);
            }
            if parts.len() >= 2 && same_chars(&parts[1], &wanted) {
                out.push(from_chars(parts[0].as_slice()));
                assert(crate::text::strings_view(out@) =~= crate::text::strings_view(before).push(ws[0]));
            }
            i = i + 1;
        }
        proof {
            if ls@.len() > 0 {
                assert(body.take(ls@.len() - 1) =~= body);
            } else {
                assert(crate::text::strings_view(out@) =~= Seq::empty());
            }
        }
        out
    }

    /// The arguments that copy a file to the device.
    pub fn push(device_id: &str, local: &str, remote: &str) -> (r: Vec<String>)
        ensures
            crate::text::strings_view(r@) == seq!["-s"@, device_id@, "push"@, local@, remote@],
    {
        let mut args = Self::for_device(device_id, "push");
        args.push(local.to_owned());
        args.push(remote.to_owned());
        assert(crate::text::strings_view(args@) =~= seq!["-s"@, device_id@, "push"@, local@, remote@]);
        args
    }

    /// The arguments that run a command on the device.
    pub fn shell(device_id: &str, command: &str) -> (r: Vec<String>)
        ensures
            crate::text::strings_view(r@) == seq!["-s"@, device_id@, "shell"@, command@],
    {
        let mut args = Self::for_device(device_id, "shell");
        args.push(command.to_owned());
        assert(crate::text::strings_view(args@) =~= seq!["-s"@, device_id@, "shell"@, command@]);
        args
    }

    /// The arguments that forward a local port to the device.
    pub fn forward(device_id: &str, local_port: u16, remote: &str) -> (r: Vec<String>)
        ensures
            crate::text::strings_view(r@) == seq!["-s"@, device_id@, "forward"@, local_end(local_port), remote@],
    {
        let mut args = Self::for_device(device_id, "forward");
        args.push(local_text(local_port));
        args.push(remote.to_owned());
        assert(crate::text::strings_view(args@) =~= seq![
            "-s"@,
            device_id@,
            "forward"@,
            local_end(local_port),
            remote@,
        ]);
        args
    }

    /// The arguments that end the forwarding of a local port.
    pub fn forward_remove(device_id: &str, local_port: u16) -> (r: Vec<String>)
        ensures
            crate::text::strings_view(r@) == seq!["-s"@, device_id@, "forward"@, "--remove"@, local_end(local_port)],
    {
        let mut args = Self::for_device(device_id, "forward");
        args.push("--remove".to_owned());
        args.push(local_text(local_port));
        assert(crate::text::strings_view(args@) =~= seq![
            "-s"@,
            device_id@,
            "forward"@,
            "--remove"@,
            local_end(local_port),
        ]);
        args
    }

    fn for_device(device_id: &str, verb: &str) -> (r: Vec<String>)
        ensures
            crate::text::strings_view(r@) == seq!["-s"@, device_id@, verb@],
            r@.len() == 3,
    {
        let mut args: Vec<String> = Vec::new();
        args.push("-s".to_owned());
        args.push(device_id.to_owned());
        args.push(verb.to_owned());
        assert(crate::text::strings_view(args@) =~= seq!["-s"@, device_id@, verb@]);
        args
    }
}

/// Whether a line lists a device as ready: its first word is the name of the device and its second
/// is the word `device`.
pub open spec fn lists_ready(line: Seq<char>, id: Seq<char>) -> bool {
    crate::text::words(line).len() >= 2 && crate::text::words(line)[0] == id
        && crate::text::words(line)[1] == "device"@
}

proof fn lemma_devices_in(lines: Seq<Seq<char>>) -> (at: Seq<int>)
    ensures
        at.len() == devices_in(lines).len(),
        forall|i: int, j: int| 0 <= i < j < at.len() ==> #[trigger] at[i] < #[trigger] at[j],
        forall|i: int|
            0 <= i < at.len() ==> 0 <= #[trigger] at[i] < lines.len() && lists_ready(
                lines[at[i]],
                devices_in(lines)[i],
            ),
        forall|k: int, id: Seq<char>|
            0 <= k < lines.len() && #[trigger] lists_ready(lines[k], id) ==> at.contains(k),
    decreases lines.len(),
{
    if lines.len() == 0 {
        Seq::empty()
    } else {
        let init = lines.drop_last();
        let before = lemma_devices_in(init);
        let last = lines.len() - 1;
        let found = devices_in(lines);
        match device_of_line(lines.last()) {
            Some(id) => {
                let at = before.push(last);
                assert forall|i: int| 0 <= i < at.len() implies 0 <= #[trigger] at[i] < lines.len()
                    && lists_ready(lines[at[i]], found[i]) by {
                    if i < before.len() {
                        assert(lists_ready(init[before[i]], devices_in(init)[i]));
                    }
                }
                assert forall|k: int, other: Seq<char>|
                    0 <= k < lines.len() && #[trigger] lists_ready(lines[k], other) implies at.contains(
                    k,
                ) by {
                    if k < last {
                        assert(lists_ready(init[k], other));
                        let i = choose|i: int| 0 <= i < before.len() && before[i] == k;
                        assert(at[i] == k);
                    } else {
                        assert(at[before.len() as int] == k);
                    }
                }
                at
            },
            None => {
                assert forall|i: int| 0 <= i < before.len() implies 0 <= #[trigger] before[i]
                    < lines.len() && lists_ready(lines[before[i]], found[i]) by {
                    assert(lists_ready(init[before[i]], devices_in(init)[i]));
                }
                assert forall|k: int, other: Seq<char>|
                    0 <= k < lines.len() && #[trigger] lists_ready(
                        lines[k],
                        other,
                    ) implies before.contains(k) by {
                    if k < last {
                        assert(lists_ready(init[k], other));
                    }
                }
                before
            },
        }
    }
}

/// A name is among the listed devices exactly when a line behind the heading has it as its first
/// word and the word `device` as its second. So a line with another state lists nothing.
pub proof fn law_ready_devices_are_listed(output: Seq<char>, id: Seq<char>)
    ensures
        listed_devices(output).contains(id) <==> exists|k: int|
            1 <= k < crate::text::lines(output).len() && {
                let parts = crate::text::words(#[trigger] crate::text::lines(output)[k]);
                parts.len() >= 2 && parts[0] == id && parts[1] == "device"@
            },
{
    let ls = crate::text::lines(output);
    if ls.len() > 0 {
        let body = ls.skip(1);
        let found = listed_devices(output);
        let at = lemma_devices_in(body);
        if found.contains(id) {
            let i = choose|i: int| 0 <= i < found.len() && found[i] == id;
            assert(lists_ready(body[at[i]], found[i]));
            assert(ls[at[i] + 1] == body[at[i]]);
        }
        if exists|k: int|
            1 <= k < ls.len() && {
                let parts = crate::text::words(#[trigger] ls[k]);
                parts.len() >= 2 && parts[0] == id && parts[1] == "device"@
            } {
            let k = choose|k: int|
                1 <= k < ls.len() && {
                    let parts = crate::text::words(#[trigger] ls[k]);
                    parts.len() >= 2 && parts[0] == id && parts[1] == "device"@
                };
            assert(body[k - 1] == ls[k]);
            assert(lists_ready(body[k - 1], id));
            let i = choose|i: int| 0 <= i < at.len() && at[i] == k - 1;
            assert(lists_ready(body[at[i]], found[i]));
            assert(found[i] == id);
        }
    } else {
        assert(ls.skip(0) =~= ls);
    }
}

/// The devices are listed in the order of their lines, one for each line that lists one.
pub proof fn law_devices_in_order_of_lines(output: Seq<char>) -> (at: Seq<int>)
    ensures
        at.len() == listed_devices(output).len(),
        forall|i: int, j: int| 0 <= i < j < at.len() ==> #[trigger] at[i] < #[trigger] at[j],
        forall|i: int|
            0 <= i < at.len() ==> 1 <= #[trigger] at[i] < crate::text::lines(output).len()
                && lists_ready(crate::text::lines(output)[at[i]], listed_devices(output)[i]),
        forall|k: int, id: Seq<char>|
            1 <= k < crate::text::lines(output).len() && #[trigger] lists_ready(
                crate::text::lines(output)[k],
                id,
            ) ==> at.contains(k),
{
    let ls = crate::text::lines(output);
    if ls.len() > 0 {
        let body = ls.skip(1);
        let inner = lemma_devices_in(body);
        let at = Seq::new(inner.len(), |i: int| inner[i] + 1);
        assert forall|i: int| 0 <= i < at.len() implies 1 <= #[trigger] at[i] < ls.len()
            && lists_ready(ls[at[i]], listed_devices(output)[i]) by {
            assert(lists_ready(body[inner[i]], devices_in(body)[i]));
        }
        assert forall|i: int, j: int| 0 <= i < j < at.len() implies #[trigger] at[i]
            < #[trigger] at[j] by {
            assert(inner[i] < inner[j]);
        }
        assert forall|k: int, id: Seq<char>|
            1 <= k < ls.len() && #[trigger] lists_ready(ls[k], id) implies at.contains(k) by {
            assert(lists_ready(body[k - 1], id));
            let i = choose|i: int| 0 <= i < inner.len() && inner[i] == k - 1;
            assert(at[i] == k);
        }
        at
    } else {
        assert(ls.skip(0) =~= ls);
        Seq::empty()
    }
}

/// Different ports have different local ends.
pub proof fn law_local_ends_differ(a: u16, b: u16)
    ensures
        a != b ==> local_end(a) != local_end(b),
        local_end(a).len() > 4,
        local_end(a).take(4) == seq!['t', 'c', 'p', ':'],
        crate::text::parsed_u32(local_end(a).skip(4)) == Some(a as u32),
        local_end(a).skip(4) == crate::text::decimal(a as nat),
{
    reveal_strlit("tcp:");
    crate::text::law_decimal(a as nat, b as nat);
    crate::text::lemma_decimal(a as nat);
    crate::text::law_parse_decimal(a as u32);
    assert(local_end(a).take(4) =~= seq!['t', 'c', 'p', ':']);
    assert(local_end(a).skip(4) =~= crate::text::decimal(a as nat));
    assert(local_end(b).skip(4) =~= crate::text::decimal(b as nat));
}

/// What listing the devices gives: a name is among them exactly when some line of the output behind
/// the first has it as its first word and the word `device` as its second.
pub proof fn law_list_devices(output: &str, r: Vec<String>, id: Seq<char>)
    requires
        call_ensures(AdbClient::list_devices, (output,), r),
    ensures
        (exists|i: int| 0 <= i < r@.len() && (#[trigger] r@[i])@ == id) <==> exists|k: int|
            1 <= k < crate::text::lines(output@).len() && {
                let parts = crate::text::words(#[trigger] crate::text::lines(output@)[k]);
                parts.len() >= 2 && parts[0] == id && parts[1] == "device"@
            },
{
    law_ready_devices_are_listed(output@, id);
    let names = crate::text::strings_view(r@);
    if exists|i: int| 0 <= i < r@.len() && (#[trigger] r@[i])@ == id {
        let i = choose|i: int| 0 <= i < r@.len() && (#[trigger] r@[i])@ == id;
        assert(names[i] == id);
    }
    if names.contains(id) {
        let i = choose|i: int| 0 <= i < names.len() && names[i] == id;
        assert(r@[i]@ == id);
    }
}

/// A command that ran and succeeded gives its output; one that failed gives what it printed as an
/// error, and one that did not run gives the reason.
pub proof fn law_command_outcomes(outcome: CommandOutcome, r: Result<String, ScrcpyError>)
    requires
        call_ensures(AdbClient::execute, (outcome,), r),
    ensures
        r is Ok <==> outcome is Finished && outcome->success,
        r matches Ok(out) ==> out@ == crate::text::lossy(outcome->stdout@),
        outcome is Finished ==> (r matches Err(e) ==> e@ == crate::error::ErrorView::Adb(
            "ADB command failed: "@ + crate::text::lossy(outcome->stderr@),
        )),
        outcome matches CommandOutcome::NotRun(m) ==> (r matches Err(e) ==> e@
            == crate::error::ErrorView::Adb("Failed to execute ADB: "@ + m@)),
{
}

} // verus!
