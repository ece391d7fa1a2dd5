use vstd::prelude::*;
use crate::window_system::Window;
use crate::workspaces::Workspaces;

verus! {

/// `serde_json::Error`, why JSON could not be read or written; nothing is
/// known of its contents.
#[verifier::external_type_specification]
#[verifier::external_body]
pub struct ExJsonError(serde_json::Error);

/// The decimal digits of the number, without leading zeros.
pub open spec fn decimal(n: nat) -> Seq<char>
    decreases n,
{
    if n < 10 {
        seq![(48 + n) as char]
    } else {
        decimal(n / 10).push((48 + n % 10) as char)
    }
}

/// A (window, workspace) pair as a JSON array of two numbers.
pub open spec fn json_pair(p: (u64, u32)) -> Seq<char> {
    seq!['['] + decimal(p.0 as nat) + seq![','] + decimal(p.1 as nat) + seq![']']
}

/// The pairs as JSON arrays, separated by commas.
pub open spec fn json_pair_list(ids: Seq<(u64, u32)>) -> Seq<char>
    decreases ids.len(),
{
    if ids.len() == 0 {
        Seq::empty()
    } else if ids.len() == 1 {
        json_pair(ids[0])
    } else {
        json_pair_list(ids.drop_last()) + seq![','] + json_pair(ids.last())
    }
}

/// The JSON text of a list of (window, workspace) pairs, as serde_json
/// writes it: an array of arrays of two numbers, without spaces.
pub open spec fn json_of_window_ids(ids: Seq<(u64, u32)>) -> Seq<char> {
    seq!['['] + json_pair_list(ids) + seq![']']
}

/// The list of (window, workspace) pairs that serde_json reads from a
/// text, if it reads one.
pub uninterp spec fn window_ids_of_json(text: Seq<char>) -> Option<Seq<(u64, u32)>>;

/// `serde_json::to_string` on a list of (window, workspace) pairs. Claimed:
/// it succeeds (its documentation names as the only failures a `Serialize`
/// implementation that fails and a map with keys that are not strings; a
/// list of pairs of integers has neither); the text is the list as a JSON
/// array of two-number arrays in the compact form, numbers in decimal
/// (a sequence and a tuple are written as arrays, integers through itoa);
/// and `serde_json::from_str` reads the same list back from it.
#[verifier::external_body]
fn json_to_string(ids: &Vec<(u64, u32)>) -> (r: Result<String, serde_json::Error>)
    ensures
        r is Ok,
        r matches Ok(s) ==> s@ == json_of_window_ids(ids@),
        r matches Ok(s) ==> window_ids_of_json(s@) == Some(ids@),
{
    serde_json::to_string(ids)
}

/// `serde_json::from_str` into a list of (window, workspace) pairs.
/// Claimed: whether it succeeds, and the list it reads, depend on the text
/// alone.
#[verifier::external_body]
fn json_from_str(text: &str) -> (r: Result<Vec<(u64, u32)>, serde_json::Error>)
    ensures
        r is Ok <==> window_ids_of_json(text@) is Some,
        r matches Ok(v) ==> Some(v@) == window_ids_of_json(text@),
{
    serde_json::from_str(text)
}

/// Why a list of window ids could not be read.
#[derive(Debug, Clone, Copy, PartialEq, Eq)]
pub enum WindowIdsError {
    Decode,
}

/// The JSON text of the (window, workspace) pairs; reading it back gives
/// the same pairs.
pub fn encode_window_ids(ids: &Vec<(Window, u32)>) -> (r: String)
    ensures
        r@ == json_of_window_ids(ids@),
        window_ids_of_json(r@) == Some(ids@),
{
    json_to_string(ids).unwrap()
}

/// The (window, workspace) pairs that a restarted window manager is given
/// to manage again: every window of every workspace with the workspace's
/// id, as JSON.
pub fn window_ids_argument<R: Clone>(workspaces: &Workspaces<R>) -> (r: String)
    ensures
        r@ == json_of_window_ids(workspaces.model().all_windows_with_workspaces()),
        window_ids_of_json(r@) == Some(workspaces.model().all_windows_with_workspaces()),
{
    let ids = workspaces.all_windows_with_workspaces();
    encode_window_ids(&ids)
}

/// The pairs that reading a JSON text gave, or why it failed.
pub fn read_window_ids(parsed: Result<Vec<(Window, u32)>, serde_json::Error>) -> (r: Result<
    Vec<(Window, u32)>,
    WindowIdsError,
>)
    ensures
        match parsed {
            Ok(v) => r matches Ok(w) && w@ == v@,
            Err(_) => r == Err::<Vec<(Window, u32)>, WindowIdsError>(WindowIdsError::Decode),
        },
{
    match parsed {
        Ok(v) => Ok(v),
        Err(_) => Err(WindowIdsError::Decode),
    }
}

/// The (window, workspace) pairs of a JSON text, as given to a restarted
/// window manager.
pub fn parse_window_ids(ids: &str) -> (r: Result<Vec<(Window, u32)>, WindowIdsError>)
    ensures
        match window_ids_of_json(ids@) {
            Some(v) => r matches Ok(w) && w@ == v,
            None => r == Err::<Vec<(Window, u32)>, WindowIdsError>(WindowIdsError::Decode),
        },
{
    read_window_ids(json_from_str(ids))
}

/// The text cut at each space: the pieces between the spaces, empty ones
/// included, from left to right.
pub open spec fn split_spaces(s: Seq<char>) -> Seq<Seq<char>>
    decreases s.len(),
{
    if s.len() == 0 {
        seq![Seq::empty()]
    } else {
        let pieces = split_spaces(s.drop_last());
        if s.last() == ' ' {
            pieces.push(Seq::empty())
        } else {
            pieces.update(pieces.len() - 1, pieces.last().push(s.last()))
        }
    }
}

/// A cut text has at least one piece.
proof fn lemma_split_spaces_len(s: Seq<char>)
    ensures
        split_spaces(s).len() >= 1,
    decreases s.len(),
{
    if s.len() > 0 {
        lemma_split_spaces_len(s.drop_last());
    }
}

/// The arguments the terminal is started with: none for an empty text,
/// else the text cut at each space.
pub fn terminal_arguments(args: &str) -> (r: Vec<String>)
    ensures
        args@.len() == 0 ==> r@.len() == 0,
        args@.len() > 0 ==> r@.map_values(|x: String| x@) == split_spaces(args@),
{
    let n = args.unicode_len();
    let mut r: Vec<String> = Vec::new();
    if n == 0 {
        return r;
    }
    let mut start: usize = 0;
    let mut i: usize = 0;
    assert(args@.subrange(0, 0) =~= Seq::<char>::empty());
    assert(r@.map_values(|x: String| x@).push(args@.subrange(0, 0)) =~= seq![Seq::<char>::empty()]);
    while i < n
        invariant
            n == args@.len(),
            start <= i <= n,
            r@.map_values(|x: String| x@).push(args@.subrange(start as int, i as int)) == split_spaces(
                args@.subrange(0, i as int),
            ),
        decreases n - i,
    {
        let c = args.get_char(i);
        proof {
            assert(args@.subrange(0, i + 1).drop_last() =~= args@.subrange(0, i as int));
            lemma_split_spaces_len(args@.subrange(0, i as int));
        }
        if c == ' ' {
            let piece = args.substring_char(start, i).to_owned();
            r.push(piece);
            start = i + 1;
            proof {
                assert(args@.subrange(start as int, i + 1) =~= Seq::<char>::empty());
            }
        } else {
            proof {
                assert(args@.subrange(start as int, i + 1) =~= args@.subrange(start as int, i as int).push(c));
            }
        }
        i = i + 1;
    }
    let last = args.substring_char(start, n).to_owned();
    r.push(last);
    assert(args@.subrange(0, n as int) =~= args@);
    r
}

/// Move the window to the workspace with the given id.
pub fn shift<R: Clone>(index: u32, workspace: Workspaces<R>, window: Window) -> (r: Workspaces<R>)
    ensures
        r.model() == workspace.model().shifted_window(index, window),
{
    workspace.shift_window(index, window)
}

/// Focus the window, then move it to the workspace with the given id.
pub fn spawn_on<R: Clone>(workspaces: Workspaces<R>, window: Window, workspace_id: u32) -> (r: Workspaces<R>)
    requires
        workspaces.model().wf(),
    ensures
        r.model() == workspaces.model().focus_window(window).shifted(workspace_id),
{
    workspaces.focus_window(window).shift(workspace_id)
}

} // verus!
