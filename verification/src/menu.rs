//! The interactive menu: what its choices mean, and the text it shows.
use vstd::prelude::*;

use crate::cli::{Cli, Command};
use crate::paths::{is_absolute, join, spec_is_absolute, spec_join, spec_strip_prefix, strip_prefix};
use crate::scan::{AssetState, StatusItem, StatusReport, StatusSummary};
use crate::signing::{default_output_path, spec_default_output_path};
use crate::text::{pad_right, padding, concat2, decimal, owned, push_decimal, push_str, push_text, texts, trim, trim_str, starts_with, chars_of, chars_start_with, string_of};

verus! {

/// The number of entries of the main menu.
pub const MAIN_ACTIONS: usize = 9;

/// The entries of the main menu, in order.
#[derive(Clone, Copy, PartialEq, Eq, Structural, Debug)]
pub enum MainAction {
    Status,
    Sign,
    Audit,
    Package,
    Inspect,
    Verify,
    ChangeFolder,
    Advanced,
    Quit,
}

/// The main menu entry at a position.
pub open spec fn spec_main_action(index: usize) -> Option<MainAction> {
    if index == 0 {
        Some(MainAction::Status)
    } else if index == 1 {
        Some(MainAction::Sign)
    } else if index == 2 {
        Some(MainAction::Audit)
    } else if index == 3 {
        Some(MainAction::Package)
    } else if index == 4 {
        Some(MainAction::Inspect)
    } else if index == 5 {
        Some(MainAction::Verify)
    } else if index == 6 {
        Some(MainAction::ChangeFolder)
    } else if index == 7 {
        Some(MainAction::Advanced)
    } else if index == 8 {
        Some(MainAction::Quit)
    } else {
        None
    }
}

impl MainAction {
    /// The main menu entry at a position, if there is one.
    pub fn from_index(index: usize) -> (r: Option<MainAction>)
        ensures
            r == spec_main_action(index),
    {
        match index {
            0 => Some(MainAction::Status),
            1 => Some(MainAction::Sign),
            2 => Some(MainAction::Audit),
            3 => Some(MainAction::Package),
            4 => Some(MainAction::Inspect),
            5 => Some(MainAction::Verify),
            6 => Some(MainAction::ChangeFolder),
            7 => Some(MainAction::Advanced),
            8 => Some(MainAction::Quit),
            _ => None,
        }
    }
}

/// The entries of the advanced menu, in order.
#[derive(Clone, Copy, PartialEq, Eq, Structural, Debug)]
pub enum AdvancedAction {
    Initialize,
    Identity,
    Attest,
    Derivative,
    RotateSigner,
    Back,
}

/// The advanced menu entry at a position.
pub open spec fn spec_advanced_action(index: usize) -> Option<AdvancedAction> {
    if index == 0 {
        Some(AdvancedAction::Initialize)
    } else if index == 1 {
        Some(AdvancedAction::Identity)
    } else if index == 2 {
        Some(AdvancedAction::Attest)
    } else if index == 3 {
        Some(AdvancedAction::Derivative)
    } else if index == 4 {
        Some(AdvancedAction::RotateSigner)
    } else if index == 5 {
        Some(AdvancedAction::Back)
    } else {
        None
    }
}

impl AdvancedAction {
    /// The advanced menu entry at a position, if there is one.
    pub fn from_index(index: usize) -> (r: Option<AdvancedAction>)
        ensures
            r == spec_advanced_action(index),
    {
        match index {
            0 => Some(AdvancedAction::Initialize),
            1 => Some(AdvancedAction::Identity),
            2 => Some(AdvancedAction::Attest),
            3 => Some(AdvancedAction::Derivative),
            4 => Some(AdvancedAction::RotateSigner),
            5 => Some(AdvancedAction::Back),
            _ => None,
        }
    }
}

/// The label of an image state in the status list.
pub open spec fn spec_state_label(s: AssetState) -> Seq<char> {
    match s {
        AssetState::Unsigned => "Unsigned — needs signing"@,
        AssetState::SignedExternal => "Foreign signed — needs local signature"@,
        AssetState::SignedLocal => "Local signed — already signed locally"@,
        AssetState::Covered => "Covered — signed sibling exists"@,
        AssetState::Invalid => "Invalid — needs attention"@,
        AssetState::Unreadable => "Unreadable — needs attention"@,
    }
}

/// The label of an image state in the status list.
pub fn state_label(state: AssetState) -> (r: &'static str)
    ensures
        r@ == spec_state_label(state),
{
    match state {
        AssetState::Unsigned => "Unsigned — needs signing",
        AssetState::SignedExternal => "Foreign signed — needs local signature",
        AssetState::SignedLocal => "Local signed — already signed locally",
        AssetState::Covered => "Covered — signed sibling exists",
        AssetState::Invalid => "Invalid — needs attention",
        AssetState::Unreadable => "Unreadable — needs attention",
    }
}

/// The short label of an image state in image choices.
pub open spec fn spec_short_state_label(s: AssetState) -> Seq<char> {
    match s {
        AssetState::Unsigned => "Unsigned"@,
        AssetState::SignedExternal => "Foreign signed"@,
        AssetState::SignedLocal => "Local signed"@,
        AssetState::Covered => "Covered"@,
        AssetState::Invalid => "Invalid"@,
        AssetState::Unreadable => "Unreadable"@,
    }
}

/// The short label of an image state in image choices.
pub fn short_state_label(state: AssetState) -> (r: &'static str)
    ensures
        r@ == spec_short_state_label(state),
{
    match state {
        AssetState::Unsigned => "Unsigned",
        AssetState::SignedExternal => "Foreign signed",
        AssetState::SignedLocal => "Local signed",
        AssetState::Covered => "Covered",
        AssetState::Invalid => "Invalid",
        AssetState::Unreadable => "Unreadable",
    }
}

/// A path as shown in the menu: relative to the working folder when it lies
/// under it.
pub open spec fn spec_menu_path(path: Seq<char>, working_directory: Seq<char>) -> Seq<char> {
    match spec_strip_prefix(path, working_directory) {
        Some(rest) => rest,
        None => path,
    }
}

/// A path as shown in the menu.
pub fn menu_path(path: &str, working_directory: &str) -> (r: String)
    ensures
        r@ == spec_menu_path(path@, working_directory@),
{
    match strip_prefix(path, working_directory) {
        Some(rest) => rest,
        None => owned(path),
    }
}

/// The one-line summary of a status report.
pub open spec fn spec_summary_line(s: StatusSummary) -> Seq<char> {
    decimal(s.total as nat) + " images: "@ + decimal(s.needs_signing as nat) + " need signing ("@
        + decimal(s.unsigned as nat) + " unsigned, "@ + decimal(s.signed_external as nat) + " foreign signed), "@
        + decimal(s.signed_local as nat) + " local signed, "@ + decimal(s.covered as nat) + " covered, "@
        + decimal(s.invalid as nat) + " invalid, "@ + decimal(s.unreadable as nat) + " unreadable"@
}

/// The one-line summary of a status report.
pub fn summary_line(report: &StatusReport) -> (r: String)
    ensures
        r@ == spec_summary_line(report.summary),
{
    let s = &report.summary;
    let mut r = String::new();
    push_decimal(&mut r, s.total as u64);
    push_str(&mut r, " images: ");
    push_decimal(&mut r, s.needs_signing as u64);
    push_str(&mut r, " need signing (");
    push_decimal(&mut r, s.unsigned as u64);
    push_str(&mut r, " unsigned, ");
    push_decimal(&mut r, s.signed_external as u64);
    push_str(&mut r, " foreign signed), ");
    push_decimal(&mut r, s.signed_local as u64);
    push_str(&mut r, " local signed, ");
    push_decimal(&mut r, s.covered as u64);
    push_str(&mut r, " covered, ");
    push_decimal(&mut r, s.invalid as u64);
    push_str(&mut r, " invalid, ");
    push_decimal(&mut r, s.unreadable as u64);
    push_str(&mut r, " unreadable");
    proof {
        assert(Seq::<char>::empty() + decimal(s.total as nat) =~= decimal(s.total as nat));
    }
    r
}

/// The command that "Sign pending images" runs: a recursive, published,
/// never forced batch over the working folder, with the default description.
pub fn pending_sign_command(working_directory: &str) -> (c: Cli)
    ensures
        !c.json,
        c.command matches Command::Sign { paths, recursive, published, description, force }
            && paths@.len() == 1 && paths@[0]@ == working_directory@ && recursive && published
            && description.is_none() && !force,
{
    let mut paths: Vec<String> = Vec::new();
    paths.push(owned(working_directory));
    Cli {
        json: false,
        command: Command::Sign { paths, recursive: true, published: true, description: None, force: false },
    }
}

/// A typed path made absolute against the working folder, after trimming and
/// expanding a leading `~` to the home directory when it is known.
pub open spec fn spec_resolve_path(entered: Seq<char>, working_directory: Seq<char>, home: Option<Seq<char>>) -> Seq<char> {
    let t = trim(entered);
    let expanded = if t == "~"@ {
        home
    } else if starts_with(t, "~/"@) {
        match home {
            Some(h) => Some(spec_join(h, t.subrange(2, t.len() as int))),
            None => None,
        }
    } else {
        None
    };
    let path = match expanded {
        Some(p) => p,
        None => t,
    };
    if spec_is_absolute(path) { path } else { spec_join(working_directory, path) }
}

/// A typed `~/` path names a path under the home directory: with `HOME` set to
/// an absolute directory, `~/rest` (for a relative `rest`) resolves to that
/// directory followed by `rest`, with the `~/` removed and one separator
/// between them, whatever the working folder.
pub proof fn law_home_paths_drop_the_tilde(rest: Seq<char>, working_directory: Seq<char>, home: Seq<char>)
    requires
        trim("~/"@ + rest) == "~/"@ + rest,
        spec_is_absolute(home),
        !spec_is_absolute(rest),
    ensures
        spec_resolve_path("~/"@ + rest, working_directory, Some(home))
            == (if home.last() == '/' { home + rest } else { home.push('/') + rest }),
{
    reveal_strlit("~/");
    reveal_strlit("~");
    let t = "~/"@ + rest;
    assert(t.len() >= 2);
    assert(t != "~"@);
    assert(t.subrange(0, 2) =~= "~/"@);
    assert(starts_with(t, "~/"@));
    assert(t.subrange(2, t.len() as int) =~= rest);
    let j = spec_join(home, rest);
    assert(j[0] == '/');
    assert(spec_is_absolute(j));
}

/// Resolves a typed path against the working folder; `home` is the value of
/// `HOME`, when set.
pub fn resolve_path(entered: &str, working_directory: &str, home: Option<&str>) -> (r: String)
    ensures
        r@ == spec_resolve_path(entered@, working_directory@, match home { Some(h) => Some(h@), None => None }),
{
    let t = trim_str(entered);
    let cs = chars_of(t.as_str());
    let tilde = cs.len() == 1 && cs[0] == '~';
    proof {
        reveal_strlit("~");
        if cs@.len() == 1 && cs@[0] == '~' {
            assert(cs@ =~= "~"@);
        }
        if cs@ == "~"@ {
            assert(cs@[0] == '~');
        }
    }
    let expanded: Option<String> = if tilde {
        match home {
            Some(h) => Some(owned(h)),
            None => None,
        }
    } else if chars_start_with(cs.as_slice(), "~/") {
        proof {
            reveal_strlit("~/");
        }
        match home {
            Some(h) => {
                let rest = string_of(vstd::slice::slice_subrange(cs.as_slice(), 2, cs.len()));
                Some(join(h, rest.as_str()))
            },
            None => None,
        }
    } else {
        None
    };
    let path = match expanded {
        Some(p) => p,
        None => t,
    };
    if is_absolute(path.as_str()) {
        path
    } else {
        join(working_directory, path.as_str())
    }
}

/// The lines shown for one item of the status list.
pub open spec fn status_item_text(item: StatusItem, working_directory: Seq<char>) -> Seq<char> {
    let label = spec_state_label(item.state);
    let head = label + padding(label.len(), 34) + " "@ + spec_menu_path(item.path@, working_directory) + "\n"@;
    let covered = match item.covered_by {
        Some(c) => "  covered by "@ + spec_menu_path(c@, working_directory) + "\n"@,
        None => Seq::<char>::empty(),
    };
    let detail = if item.state == AssetState::Invalid || item.state == AssetState::Unreadable {
        "  "@ + item.detail@ + "\n"@
    } else {
        Seq::<char>::empty()
    };
    head + covered + detail
}

/// The lines of all items, in order.
pub open spec fn status_items_text(items: Seq<StatusItem>, working_directory: Seq<char>) -> Seq<char>
    decreases items.len(),
{
    if items.len() == 0 {
        Seq::<char>::empty()
    } else {
        status_items_text(items.drop_last(), working_directory) + status_item_text(items.last(), working_directory)
    }
}

/// The status listing the menu prints for a folder.
pub open spec fn spec_status_text(report: StatusReport, working_directory: Seq<char>) -> Seq<char> {
    let head = "\nImage status under "@ + working_directory + "\n"@;
    let body = if report.items@.len() == 0 {
        "  No supported PNG or JPEG images found.\n"@
    } else {
        "STATUS"@ + padding(6, 34) + " FILE\n"@ + status_items_text(report.items@, working_directory)
    };
    let tail = if report.local_identity_configured {
        Seq::<char>::empty()
    } else {
        "Local identity is not configured, so existing signatures cannot yet be classified as local.\n"@
    };
    head + body + spec_summary_line(report.summary) + "\n"@ + tail + "\n"@
}

fn item_text(item: &StatusItem, working_directory: &str) -> (r: String)
    ensures
        r@ == status_item_text(*item, working_directory@),
{
    let label = state_label(item.state);
    let mut r = pad_right(label, 34);
    push_str(&mut r, " ");
    let shown = menu_path(item.path.as_str(), working_directory);
    push_str(&mut r, shown.as_str());
    push_str(&mut r, "\n");
    if let Some(c) = &item.covered_by {
        push_str(&mut r, "  covered by ");
        let cp = menu_path(c.as_str(), working_directory);
        push_str(&mut r, cp.as_str());
        push_str(&mut r, "\n");
    }
    match item.state {
        AssetState::Invalid | AssetState::Unreadable => {
            push_str(&mut r, "  ");
            push_str(&mut r, item.detail.as_str());
            push_str(&mut r, "\n");
        },
        _ => {},
    }
    assert(r@ =~= status_item_text(*item, working_directory@));
    r
}

/// The status listing the menu prints for a folder.
pub fn status_text(report: &StatusReport, working_directory: &str) -> (r: String)
    ensures
        r@ == spec_status_text(*report, working_directory@),
{
    let mut r = concat2("\nImage status under ", working_directory);
    push_str(&mut r, "\n");
    let ghost head = r@;
    if report.items.len() == 0 {
        push_str(&mut r, "  No supported PNG or JPEG images found.\n");
    } else {
        let h = pad_right("STATUS", 34);
        proof {
            reveal_strlit("STATUS");
        }
        push_str(&mut r, h.as_str());
        push_str(&mut r, " FILE\n");
        let ghost before = r@;
        let mut i: usize = 0;
        while i < report.items.len()
            invariant
                i <= report.items@.len(),
                r@ == before + status_items_text(report.items@.subrange(0, i as int), working_directory@),
            decreases report.items@.len() - i,
        {
            let t = item_text(&report.items[i], working_directory);
            push_str(&mut r, t.as_str());
            proof {
                let pre = report.items@.subrange(0, i + 1);
                assert(pre.drop_last() =~= report.items@.subrange(0, i as int));
                assert(r@ =~= before + status_items_text(pre, working_directory@));
            }
            i = i + 1;
        }
        assert(report.items@.subrange(0, report.items@.len() as int) =~= report.items@);
    }
    let line = summary_line(report);
    push_str(&mut r, line.as_str());
    push_str(&mut r, "\n");
    if !report.local_identity_configured {
        push_str(&mut r, "Local identity is not configured, so existing signatures cannot yet be classified as local.\n");
    }
    push_str(&mut r, "\n");
    proof {
        assert(r@ =~= spec_status_text(*report, working_directory@));
    }
    r
}

/// The label of an image choice: its short state, padded, and its menu path.
pub open spec fn choice_label(item: StatusItem, working_directory: Seq<char>) -> Seq<char> {
    let l = spec_short_state_label(item.state);
    l + padding(l.len(), 15) + " "@ + spec_menu_path(item.path@, working_directory)
}

/// The readable images of a list, in order.
pub open spec fn readable_items(items: Seq<StatusItem>) -> Seq<StatusItem>
    decreases items.len(),
{
    if items.len() == 0 {
        seq![]
    } else if items.last().state != AssetState::Unreadable {
        readable_items(items.drop_last()).push(items.last())
    } else {
        readable_items(items.drop_last())
    }
}

/// The images offered for a choice (every readable one, in order), with
/// their labels, followed by the two fixed labels.
pub fn image_choices(report: &StatusReport, working_directory: &str) -> (r: (Vec<String>, Vec<String>))
    ensures
        r.0@.len() == readable_items(report.items@).len(),
        r.1@.len() == r.0@.len() + 2,
        forall|k: int| 0 <= k < r.0@.len() ==> (#[trigger] r.0@[k])@ == readable_items(report.items@)[k].path@
            && r.1@[k]@ == choice_label(readable_items(report.items@)[k], working_directory@),
        r.1@[r.0@.len() as int]@ == "Enter another path"@,
        r.1@[r.0@.len() + 1int]@ == "Back"@,
{
    let mut paths: Vec<String> = Vec::new();
    let mut labels: Vec<String> = Vec::new();
    let mut i: usize = 0;
    while i < report.items.len()
        invariant
            i <= report.items@.len(),
            labels@.len() == paths@.len(),
            paths@.len() == readable_items(report.items@.subrange(0, i as int)).len(),
            forall|k: int| 0 <= k < paths@.len() ==> (#[trigger] paths@[k])@ == readable_items(report.items@.subrange(0, i as int))[k].path@
                && labels@[k]@ == choice_label(readable_items(report.items@.subrange(0, i as int))[k], working_directory@),
        decreases report.items@.len() - i,
    {
        let item = &report.items[i];
        let ghost pre = report.items@.subrange(0, i + 1);
        proof {
            assert(pre.drop_last() =~= report.items@.subrange(0, i as int));
            assert(pre.last() == report.items@[i as int]);
        }
        let readable = match item.state {
            AssetState::Unreadable => false,
            _ => true,
        };
        if readable {
            let mut label = pad_right(short_state_label(item.state), 15);
            push_str(&mut label, " ");
            let shown = menu_path(item.path.as_str(), working_directory);
            push_str(&mut label, shown.as_str());
            paths.push(item.path.clone());
            labels.push(label);
        }
        i = i + 1;
    }
    assert(report.items@.subrange(0, report.items@.len() as int) =~= report.items@);
    let ghost lab = labels@;
    labels.push(owned("Enter another path"));
    labels.push(owned("Back"));
    assert forall|k: int| 0 <= k < paths@.len() implies labels@[k] == lab[k] by {}
    (paths, labels)
}

/// The confirmation asked before signing pending images.
pub fn sign_prompt(pending: usize) -> (r: String)
    ensures
        r@ == "Sign "@ + decimal(pending as nat) + " pending image"@
            + (if pending == 1 { Seq::<char>::empty() } else { "s"@ }) + " and create published .banksy-signed copies?"@,
{
    let mut r = owned("Sign ");
    push_decimal(&mut r, pending as u64);
    push_str(&mut r, " pending image");
    if pending != 1 {
        push_str(&mut r, "s");
    }
    push_str(&mut r, " and create published .banksy-signed copies?");
    proof {
        if pending == 1 {
            assert(r@ =~= "Sign "@ + decimal(pending as nat) + " pending image"@ + Seq::<char>::empty()
                + " and create published .banksy-signed copies?"@);
        }
    }
    r
}

/// The labels of the main menu, with the number of images found and the
/// number pending.
pub fn main_action_labels(total: usize, pending: usize) -> (r: Vec<String>)
    ensures
        r@.len() == MAIN_ACTIONS,
        r@[0]@ == "Refresh and show image status ("@ + decimal(total as nat) + " found)"@,
        r@[1]@ == "Sign pending images ("@ + decimal(pending as nat) + ") — includes publication"@,
        r@[2]@ == "Audit an image or evidence ZIP"@,
        r@[3]@ == "Package locally signed images for safe transfer"@,
        r@[4]@ == "Inspect an image"@,
        r@[5]@ == "Verify an image"@,
        r@[6]@ == "Change working folder"@,
        r@[7]@ == "Advanced actions"@,
        r@[8]@ == "Quit"@,
{
    let mut first = owned("Refresh and show image status (");
    push_decimal(&mut first, total as u64);
    push_str(&mut first, " found)");
    let mut second = owned("Sign pending images (");
    push_decimal(&mut second, pending as u64);
    push_str(&mut second, ") — includes publication");
    let mut r: Vec<String> = Vec::new();
    r.push(first);
    r.push(second);
    r.push(owned("Audit an image or evidence ZIP"));
    r.push(owned("Package locally signed images for safe transfer"));
    r.push(owned("Inspect an image"));
    r.push(owned("Verify an image"));
    r.push(owned("Change working folder"));
    r.push(owned("Advanced actions"));
    r.push(owned("Quit"));
    r
}

/// The main menu has exactly `MAIN_ACTIONS` entries, numbered from zero, and
/// its last entry quits.
pub proof fn law_main_menu_indices(index: usize)
    ensures
        spec_main_action(index).is_some() <==> index < MAIN_ACTIONS,
        spec_main_action((MAIN_ACTIONS - 1) as usize) == Some(MainAction::Quit),
{
}

/// The signed copies that signing the pending images creates: the default
/// output of every image that needs signing, in order.
pub open spec fn pending_outputs_of(items: Seq<StatusItem>) -> Seq<Seq<char>>
    decreases items.len(),
{
    if items.len() == 0 {
        seq![]
    } else if items.last().needs_signing {
        pending_outputs_of(items.drop_last()).push(spec_default_output_path(items.last().path@))
    } else {
        pending_outputs_of(items.drop_last())
    }
}

/// The signed copies that signing the pending images of a report creates.
pub fn pending_outputs(report: &StatusReport) -> (r: Vec<String>)
    ensures
        texts(r@) == pending_outputs_of(report.items@),
{
    let mut r: Vec<String> = Vec::new();
    let mut i: usize = 0;
    while i < report.items.len()
        invariant
            i <= report.items@.len(),
            texts(r@) == pending_outputs_of(report.items@.subrange(0, i as int)),
        decreases report.items@.len() - i,
    {
        let ghost pre = report.items@.subrange(0, i + 1);
        proof {
            assert(pre.drop_last() =~= report.items@.subrange(0, i as int));
            assert(pre.last() == report.items@[i as int]);
        }
        if report.items[i].needs_signing {
            push_text(&mut r, default_output_path(report.items[i].path.as_str()));
        }
        i = i + 1;
    }
    assert(report.items@.subrange(0, report.items@.len() as int) =~= report.items@);
    r
}

/// The labels of a choice among paths: each path as shown in the menu,
/// then the two fixed labels.
pub fn path_choices(paths: &Vec<String>, working_directory: &str) -> (r: Vec<String>)
    ensures
        r@.len() == paths@.len() + 2,
        forall|k: int| 0 <= k < paths@.len() ==> (#[trigger] r@[k])@ == spec_menu_path(paths@[k]@, working_directory@),
        r@[paths@.len() as int]@ == "Enter another path"@,
        r@[paths@.len() + 1int]@ == "Back"@,
{
    let mut r: Vec<String> = Vec::new();
    let mut i: usize = 0;
    while i < paths.len()
        invariant
            i <= paths@.len(),
            r@.len() == i,
            forall|k: int| 0 <= k < i ==> (#[trigger] r@[k])@ == spec_menu_path(paths@[k]@, working_directory@),
        decreases paths@.len() - i,
    {
        r.push(menu_path(paths[i].as_str(), working_directory));
        i = i + 1;
    }
    r.push(owned("Enter another path"));
    r.push(owned("Back"));
    r
}

} // verus!
