//! Process ancestry: who started a process, and which terminal it runs in.
//!
//! The tracker works on a snapshot of the process table. Taking the snapshot
//! is the caller's part; the functions that read one process's record off
//! what the operating system printed are here.

use vstd::prelude::*;
use vstd::string::*;
use crate::text::{
    chars_of,
    contains_chars,
    decimal,
    has_substring,
    join_ranges,
    joined,
    last_index_of,
    parse_u32,
    parsed_u32,
    push_decimal,
    rfind_char,
    trim_range,
    trimmed,
    word_ranges,
    words,
    words_from,
};

verus! {

/// One process's record: its id, its parent's id and its name.
#[derive(Debug, Clone)]
pub struct ProcessInfo {
    pub pid: u32,
    pub ppid: u32,
    pub name: String,
}

/// How many generations `log_process_tree` follows at most.
pub const MAX_TREE_DEPTH: usize = 20;

/// The first record of `pid` in `table`.
pub open spec fn entry_of(table: Seq<ProcessInfo>, pid: u32) -> Option<ProcessInfo>
    decreases table.len(),
{
    if table.len() == 0 {
        None
    } else if table[0].pid == pid {
        Some(table[0])
    } else {
        entry_of(table.skip(1), pid)
    }
}

/// The parent that `table` records for `pid`.
pub open spec fn parent_of(table: Seq<ProcessInfo>, pid: u32) -> Option<u32> {
    match entry_of(table, pid) {
        Some(info) => Some(info.ppid),
        None => None,
    }
}

/// The names by which a terminal emulator's process is known.
pub open spec fn terminal_names() -> Seq<Seq<char>> {
    seq![
        "Terminal"@,
        "iTerm2"@,
        "alacritty"@,
        "kitty"@,
        "wezterm"@,
        "gnome-terminal"@,
        "konsole"@,
        "xterm"@,
        "cmd.exe"@,
        "powershell.exe"@,
        "WindowsTerminal.exe"@,
    ]
}

/// Whether `name` holds one of the terminal emulators' names.
pub open spec fn is_terminal_name(name: Seq<char>) -> bool {
    exists|i: int|
        0 <= i < terminal_names().len() && has_substring(name, #[trigger] terminal_names()[i])
}

/// Whether `table` has a record of `pid` whose name is a terminal's.
pub open spec fn is_terminal_process(table: Seq<ProcessInfo>, pid: u32) -> bool {
    entry_of(table, pid) matches Some(info) && is_terminal_name(info.name@)
}

/// The nearest ancestor of `pid` that is a terminal, looking at most
/// `generations` parents up; the walk ends where a parent is not recorded.
pub open spec fn terminal_ancestor(table: Seq<ProcessInfo>, pid: u32, generations: nat) -> Option<
    u32,
>
    decreases generations,
{
    if generations == 0 {
        None
    } else {
        match parent_of(table, pid) {
            None => None,
            Some(parent) => if is_terminal_process(table, parent) {
                Some(parent)
            } else {
                terminal_ancestor(table, parent, (generations - 1) as nat)
            },
        }
    }
}

/// The `k`-th ancestor of `pid`: itself for 0, its parent for 1.
pub open spec fn ancestor(table: Seq<ProcessInfo>, pid: u32, k: nat) -> Option<u32>
    decreases k,
{
    if k == 0 {
        Some(pid)
    } else {
        match ancestor(table, pid, (k - 1) as nat) {
            Some(below) => parent_of(table, below),
            None => None,
        }
    }
}

/// Whether the `k`-th ancestor of `pid` is recorded as a terminal.
pub open spec fn terminal_at(table: Seq<ProcessInfo>, pid: u32, k: nat) -> bool {
    ancestor(table, pid, k) matches Some(a) && is_terminal_process(table, a)
}

/// The first process on the way up from `pid` of which `table` has no
/// record, looking at `pid` itself and at most `generations` parents; nothing
/// where all of them are recorded.
pub open spec fn unrecorded_ancestor(table: Seq<ProcessInfo>, pid: u32, generations: nat)
    -> Option<u32>
    decreases generations,
{
    match entry_of(table, pid) {
        None => Some(pid),
        Some(info) => if generations == 0 {
            None
        } else {
            unrecorded_ancestor(table, info.ppid, (generations - 1) as nat)
        },
    }
}

/// The records from `pid` upwards, `pid`'s first: each process's record is
/// followed by its parent's. The chain ends with the first process that has
/// no record, after one whose parent is 0 or 1, and at `MAX_TREE_DEPTH`
/// records in all, `depth` of which are taken to lie below `pid`.
pub open spec fn process_chain(table: Seq<ProcessInfo>, pid: u32, depth: nat) -> Seq<ProcessInfo>
    decreases MAX_TREE_DEPTH - depth,
{
    if depth >= MAX_TREE_DEPTH {
        Seq::empty()
    } else {
        match entry_of(table, pid) {
            None => Seq::empty(),
            Some(info) => if info.ppid == 0 || info.ppid == 1 {
                seq![info]
            } else {
                seq![info] + process_chain(table, info.ppid, depth + 1)
            },
        }
    }
}

/// The parent's process id in the text of a `/proc/<pid>/stat` file: the
/// second word behind the last closing parenthesis, read as a `u32`. The
/// command's name stands in parentheses before it and may itself hold
/// parentheses and blanks.
pub open spec fn stat_parent(stat: Seq<char>) -> Option<u32> {
    match last_index_of(stat, ')') {
        None => None,
        Some(close) => {
            let fields = words_from(stat, close + 1);
            if fields.len() > 1 {
                parsed_u32(fields[1])
            } else {
                None
            }
        },
    }
}

/// The name given to a process whose own name cannot be had.
pub open spec fn fallback_name(pid: u32) -> Seq<char> {
    "Process "@ + decimal(pid as nat)
}

/// The name of process `pid`: the text of its `comm` file without the white
/// space around it, or the fallback where the file could not be read.
pub open spec fn proc_name(comm: Option<&str>, pid: u32) -> Seq<char> {
    match comm {
        Some(text) => trimmed(text@),
        None => fallback_name(pid),
    }
}

/// The parent's process id in a line that `ps -o ppid=,comm=` printed: the
/// first word read as a `u32`, 0 where it does not read as one.
pub open spec fn ps_parent(line: Seq<char>) -> u32 {
    match parsed_u32(words(line)[0]) {
        Some(ppid) => ppid,
        None => 0,
    }
}

/// The command's name in a line that `ps -o ppid=,comm=` printed: the words
/// behind the first, with single blanks between them.
pub open spec fn ps_name(line: Seq<char>) -> Seq<char> {
    joined(words(line).skip(1))
}

/// The blanks before a line at depth `depth` of the tree: two for each
/// generation.
pub open spec fn indent(depth: nat) -> Seq<char> {
    Seq::new(2 * depth, |i: int| ' ')
}

/// The line that opens the tree of `pid`.
pub open spec fn tree_header(pid: u32) -> Seq<char> {
    "Process tree for PID "@ + decimal(pid as nat) + ":"@
}

/// The line for a record that stands `depth` generations above the process
/// at the foot of the tree.
pub open spec fn tree_line(depth: nat, info: ProcessInfo) -> Seq<char> {
    indent(depth) + "PID "@ + decimal(info.pid as nat) + ": "@ + info.name@ + " (parent: "@
        + decimal(info.ppid as nat) + ")"@
}

/// The tree of `pid` in lines: the header, then one line for each record of
/// the chain from `pid` upwards, each indented by its depth.
pub open spec fn tree_lines(table: Seq<ProcessInfo>, pid: u32) -> Seq<Seq<char>> {
    let chain = process_chain(table, pid, 0);
    seq![tree_header(pid)] + Seq::new(chain.len(), |k: int| tree_line(k as nat, chain[k]))
}

/// The texts of `lines`.
pub open spec fn texts(lines: Seq<String>) -> Seq<Seq<char>> {
    Seq::new(lines.len(), |k: int| lines[k]@)
}

/// The record that `entry_of` finds is one of `pid`.
pub proof fn lemma_entry_of(table: Seq<ProcessInfo>, pid: u32)
    ensures
        match entry_of(table, pid) {
            Some(info) => info.pid == pid && table.contains(info),
            None => forall|i: int| 0 <= i < table.len() ==> (#[trigger] table[i]).pid != pid,
        },
    decreases table.len(),
{
    if table.len() > 0 {
        if table[0].pid == pid {
            assert(table.contains(table[0]));
        } else {
            lemma_entry_of(table.skip(1), pid);
            match entry_of(table, pid) {
                Some(info) => {
                    let i = choose|i: int| 0 <= i < table.skip(1).len() && table.skip(1)[i] == info;
                    assert(table[i + 1] == info);
                },
                None => {
                    assert forall|i: int| 0 <= i < table.len() implies (#[trigger] table[i]).pid
                        != pid by {
                        if i > 0 {
                            assert(table.skip(1)[i - 1].pid != pid);
                        }
                    }
                },
            }
        }
    }
}

/// Records behind a table change no record that the table has.
pub proof fn lemma_entry_of_longer(table: Seq<ProcessInfo>, more: Seq<ProcessInfo>, pid: u32)
    ensures
        entry_of(table, pid) is Some ==> entry_of(table + more, pid) == entry_of(table, pid),
    decreases table.len(),
{
    if table.len() > 0 {
        assert((table + more)[0] == table[0]);
        assert((table + more).skip(1) =~= table.skip(1) + more);
        if table[0].pid != pid {
            lemma_entry_of_longer(table.skip(1), more, pid);
        }
    }
}

/// The ancestors of `pid` are those of its parent, one generation on.
pub proof fn lemma_ancestor_step(table: Seq<ProcessInfo>, pid: u32, k: nat)
    requires
        k >= 1,
    ensures
        ancestor(table, pid, k) == match parent_of(table, pid) {
            Some(parent) => ancestor(table, parent, (k - 1) as nat),
            None => None,
        },
    decreases k,
{
    if k > 1 {
        lemma_ancestor_step(table, pid, (k - 1) as nat);
    } else {
        assert(ancestor(table, pid, 0) == Some(pid));
        match parent_of(table, pid) {
            Some(parent) => {
                assert(ancestor(table, parent, 0) == Some(parent));
            },
            None => {},
        }
    }
}

/// The terminal ancestor is the nearest one. What the walk returns is the
/// ancestor of some generation from 1 to `generations` that is a terminal,
/// and no ancestor of a generation below that is one. It returns nothing
/// exactly where no ancestor of a generation from 1 to `generations` is a
/// terminal.
pub proof fn lemma_terminal_ancestor_is_nearest(
    table: Seq<ProcessInfo>,
    pid: u32,
    generations: nat,
)
    ensures
        match terminal_ancestor(table, pid, generations) {
            Some(terminal) => exists|k: nat|
                {
                    &&& 1 <= k <= generations
                    &&& #[trigger] ancestor(table, pid, k) == Some(terminal)
                    &&& is_terminal_process(table, terminal)
                    &&& forall|j: nat| 1 <= j < k ==> !#[trigger] terminal_at(table, pid, j)
                },
            None => forall|k: nat| 1 <= k <= generations ==> !#[trigger] terminal_at(table, pid, k),
        },
    decreases generations,
{
    if generations > 0 {
        match parent_of(table, pid) {
            None => {
                assert forall|k: nat| 1 <= k <= generations implies !#[trigger] terminal_at(
                    table,
                    pid,
                    k,
                ) by {
                    lemma_ancestor_step(table, pid, k);
                }
            },
            Some(parent) => {
                lemma_ancestor_step(table, pid, 1);
                if is_terminal_process(table, parent) {
                    assert(ancestor(table, pid, 1) == Some(parent));
                } else {
                    let rest = (generations - 1) as nat;
                    lemma_terminal_ancestor_is_nearest(table, parent, rest);
                    assert forall|k: nat| k >= 1 implies terminal_at(table, pid, k) == (if k == 1 {
                        false
                    } else {
                        terminal_at(table, parent, (k - 1) as nat)
                    }) by {
                        lemma_ancestor_step(table, pid, k);
                    }
                    match terminal_ancestor(table, parent, rest) {
                        Some(terminal) => {
                            let below = choose|k: nat|
                                {
                                    &&& 1 <= k <= rest
                                    &&& #[trigger] ancestor(table, parent, k) == Some(terminal)
                                    &&& is_terminal_process(table, terminal)
                                    &&& forall|j: nat|
                                        1 <= j < k ==> !#[trigger] terminal_at(table, parent, j)
                                };
                            lemma_ancestor_step(table, pid, below + 1);
                            assert(ancestor(table, pid, below + 1) == Some(terminal));
                            assert forall|j: nat| 1 <= j < below + 1 implies !#[trigger] terminal_at(
                                table,
                                pid,
                                j,
                            ) by {
                                if j > 1 {
                                    assert(!terminal_at(table, parent, (j - 1) as nat));
                                }
                            }
                        },
                        None => {
                            assert forall|k: nat| 1 <= k <= generations implies !#[trigger] terminal_at(
                                table,
                                pid,
                                k,
                            ) by {
                                if k > 1 {
                                    assert(!terminal_at(table, parent, (k - 1) as nat));
                                }
                            }
                        },
                    }
                }
            },
        }
    }
}

/// The chain climbs from child to parent: it starts with the record of
/// `pid`, each further record is that of the parent named in the one before,
/// only the last record may name 0 or 1 as its parent, and the chain has
/// `MAX_TREE_DEPTH - depth` records at most.
pub proof fn lemma_process_chain(table: Seq<ProcessInfo>, pid: u32, depth: nat)
    requires
        depth <= MAX_TREE_DEPTH,
    ensures
        process_chain(table, pid, depth).len() <= MAX_TREE_DEPTH - depth,
        process_chain(table, pid, depth).len() > 0 ==> entry_of(table, pid) == Some(
            process_chain(table, pid, depth)[0],
        ),
        forall|k: int|
            0 <= k < process_chain(table, pid, depth).len() - 1 ==> {
                let below = #[trigger] process_chain(table, pid, depth)[k];
                &&& below.ppid != 0
                &&& below.ppid != 1
                &&& entry_of(table, below.ppid) == Some(process_chain(table, pid, depth)[k + 1])
            },
    decreases MAX_TREE_DEPTH - depth,
{
    if depth < MAX_TREE_DEPTH {
        match entry_of(table, pid) {
            None => {},
            Some(info) => {
                if !(info.ppid == 0 || info.ppid == 1) {
                    lemma_process_chain(table, info.ppid, depth + 1);
                    let chain = process_chain(table, pid, depth);
                    let rest = process_chain(table, info.ppid, depth + 1);
                    assert(chain == seq![info] + rest);
                    assert forall|k: int| 0 <= k < chain.len() - 1 implies {
                        let below = #[trigger] chain[k];
                        &&& below.ppid != 0
                        &&& below.ppid != 1
                        &&& entry_of(table, below.ppid) == Some(chain[k + 1])
                    } by {
                        if k > 0 {
                            assert(chain[k] == rest[k - 1]);
                            assert(chain[k + 1] == rest[k]);
                        } else {
                            assert(chain[1] == rest[0]);
                        }
                    }
                }
            },
        }
    }
}

/// A snapshot that records `pid` and its next `generations` ancestors
/// settles the search for a terminal: whatever records are read later and
/// put behind it, the search finds the same.
pub proof fn lemma_snapshot_settles_terminal(
    table: Seq<ProcessInfo>,
    more: Seq<ProcessInfo>,
    pid: u32,
    generations: nat,
)
    requires
        unrecorded_ancestor(table, pid, generations) is None,
    ensures
        terminal_ancestor(table + more, pid, generations) == terminal_ancestor(
            table,
            pid,
            generations,
        ),
    decreases generations,
{
    if generations > 0 {
        lemma_entry_of_longer(table, more, pid);
        let parent = entry_of(table, pid)->0.ppid;
        lemma_entry_of_longer(table, more, parent);
        lemma_snapshot_settles_terminal(table, more, parent, (generations - 1) as nat);
    }
}

/// A snapshot that records `pid` and its ancestors as far as the tree goes
/// settles the tree: whatever records are put behind it, the chain is the
/// same.
pub proof fn lemma_snapshot_settles_chain(
    table: Seq<ProcessInfo>,
    more: Seq<ProcessInfo>,
    pid: u32,
    depth: nat,
)
    requires
        depth < MAX_TREE_DEPTH,
        unrecorded_ancestor(table, pid, (MAX_TREE_DEPTH - 1 - depth) as nat) is None,
    ensures
        process_chain(table + more, pid, depth) == process_chain(table, pid, depth),
    decreases MAX_TREE_DEPTH - depth,
{
    lemma_entry_of_longer(table, more, pid);
    let info = entry_of(table, pid)->0;
    if !(info.ppid == 0 || info.ppid == 1) {
        if depth + 1 < MAX_TREE_DEPTH {
            lemma_snapshot_settles_chain(table, more, info.ppid, depth + 1);
        } else {
            assert(process_chain(table, info.ppid, depth + 1) == Seq::<ProcessInfo>::empty());
            assert(process_chain(table + more, info.ppid, depth + 1) == Seq::<
                ProcessInfo,
            >::empty());
        }
    }
}

/// The line for `info` at `depth`.
fn format_tree_line(depth: usize, info: &ProcessInfo) -> (line: String)
    ensures
        line@ == tree_line(depth as nat, *info),
{
    let mut line = String::new();
    let mut i: usize = 0;
    assert(line@ =~= indent(0));
    while i < depth
        invariant
            i <= depth,
            line@ == indent(i as nat),
        decreases depth - i,
    {
        line.append("  ");
        proof {
            reveal_strlit("  ");
            assert(line@ =~= indent((i + 1) as nat));
        }
        i += 1;
    }
    line.append("PID ");
    push_decimal(&mut line, info.pid);
    line.append(": ");
    line.append(info.name.as_str());
    line.append(" (parent: ");
    push_decimal(&mut line, info.ppid);
    line.append(")");
    line
}

/// The names by which a terminal emulator's process is known.
fn terminal_list() -> (names: Vec<&'static str>)
    ensures
        names@.len() == terminal_names().len(),
        forall|i: int| 0 <= i < names@.len() ==> (#[trigger] names@[i])@ == terminal_names()[i],
{
    let names: Vec<&'static str> = vec![
        "Terminal",
        "iTerm2",
        "alacritty",
        "kitty",
        "wezterm",
        "gnome-terminal",
        "konsole",
        "xterm",
        "cmd.exe",
        "powershell.exe",
        "WindowsTerminal.exe",
    ];
    names
}

/// Whether `name` holds one of the terminal emulators' names.
pub fn is_terminal(name: &str) -> (terminal: bool)
    ensures
        terminal == is_terminal_name(name@),
{
    let haystack = chars_of(name);
    let names = terminal_list();
    let mut i: usize = 0;
    while i < names.len()
        invariant
            i <= names@.len(),
            haystack@ == name@,
            names@.len() == terminal_names().len(),
            forall|k: int| 0 <= k < names@.len() ==> (#[trigger] names@[k])@ == terminal_names()[k],
            forall|k: int| 0 <= k < i ==> !has_substring(name@, #[trigger] terminal_names()[k]),
        decreases names@.len() - i,
    {
        let needle = chars_of(names[i]);
        if contains_chars(&haystack, &needle) {
            assert(has_substring(name@, terminal_names()[i as int]));
            return true;
        }
        i += 1;
    }
    false
}

/// A snapshot of the process table, and the walks up the process tree over
/// it.
///
/// The view is the snapshot's records in order.
pub struct ProcessTracker {
    processes: Vec<ProcessInfo>,
}

impl View for ProcessTracker {
    type V = Seq<ProcessInfo>;

    closed spec fn view(&self) -> Seq<ProcessInfo> {
        self.processes@
    }
}

impl ProcessInfo {
    /// The record of a process of which only the parent is known.
    pub fn unnamed(pid: u32, ppid: u32) -> (info: ProcessInfo)
        ensures
            info.pid == pid,
            info.ppid == ppid,
            info.name@ == fallback_name(pid),
    {
        let mut name = "Process ".to_owned();
        push_decimal(&mut name, pid);
        ProcessInfo { pid, ppid, name }
    }

    /// Reads the parent's process id off the text of `/proc/<pid>/stat`.
    pub fn parent_from_stat(stat: &str) -> (parent: Option<u32>)
        ensures
            parent == stat_parent(stat@),
    {
        let chars = chars_of(stat);
        let len = chars.len();
        match rfind_char(&chars, ')') {
            None => None,
            Some(close) => {
                assert(close < len);
                let fields = word_ranges(&chars, close + 1);
                if fields.len() > 1 {
                    let (from, to) = fields[1];
                    parse_u32(&chars, from, to)
                } else {
                    None
                }
            },
        }
    }

    /// The record of process `pid` on Linux, from the text of its `stat`
    /// file and, where it could be read, of its `comm` file. There is a
    /// record exactly where the `stat` text yields the parent.
    pub fn from_proc(pid: u32, stat: &str, comm: Option<&str>) -> (info: Option<ProcessInfo>)
        ensures
            match stat_parent(stat@) {
                Some(ppid) => info matches Some(record) && record.pid == pid && record.ppid == ppid
                    && record.name@ == proc_name(comm, pid),
                None => info is None,
            },
    {
        match ProcessInfo::parent_from_stat(stat) {
            None => None,
            Some(ppid) => {
                match comm {
                    Some(text) => {
                        let chars = chars_of(text);
                        let (from, to) = trim_range(&chars);
                        let name = text.substring_char(from, to).to_owned();
                        Some(ProcessInfo { pid, ppid, name })
                    },
                    None => Some(ProcessInfo::unnamed(pid, ppid)),
                }
            },
        }
    }

    /// The record of process `pid` from a line that `ps -o ppid=,comm=`
    /// printed for it. There is a record exactly where the line has two
    /// words or more.
    pub fn from_ps(pid: u32, line: &str) -> (info: Option<ProcessInfo>)
        ensures
            if words(line@).len() >= 2 {
                info matches Some(record) && record.pid == pid && record.ppid == ps_parent(line@)
                    && record.name@ == ps_name(line@)
            } else {
                info is None
            },
    {
        let chars = chars_of(line);
        let parts = word_ranges(&chars, 0);
        if parts.len() >= 2 {
            let (from, to) = parts[0];
            let ppid: u32 = match parse_u32(&chars, from, to) {
                Some(ppid) => ppid,
                None => 0,
            };
            let name = join_ranges(line, &parts, 1);
            Some(ProcessInfo { pid, ppid, name })
        } else {
            None
        }
    }
}

impl ProcessTracker {
    /// A tracker over a snapshot of the process table. Where a process id
    /// occurs twice, the first record counts.
    pub fn new(processes: Vec<ProcessInfo>) -> (tracker: Self)
        ensures
            tracker@ == processes@,
    {
        ProcessTracker { processes }
    }

    /// Puts a record behind those of the snapshot. It counts for its process
    /// unless the snapshot has a record of that process already.
    pub fn record(&mut self, info: ProcessInfo)
        ensures
            final(self)@ == old(self)@.push(info),
    {
        self.processes.push(info);
    }

    /// The process whose record is to be read next, for a snapshot that is
    /// to hold `pid` and its next `generations` ancestors; nothing once it
    /// holds them all.
    pub fn next_unrecorded(&self, pid: u32, generations: usize) -> (missing: Option<u32>)
        ensures
            missing == unrecorded_ancestor(self@, pid, generations as nat),
    {
        let mut current_pid: u32 = pid;
        let mut left: usize = generations;
        loop
            invariant
                left <= generations,
                unrecorded_ancestor(self@, pid, generations as nat) == unrecorded_ancestor(
                    self@,
                    current_pid,
                    left as nat,
                ),
            decreases left,
        {
            match self.find(current_pid) {
                None => {
                    return Some(current_pid);
                },
                Some(i) => {
                    if left == 0 {
                        return None;
                    }
                    current_pid = self.processes[i].ppid;
                    left -= 1;
                },
            }
        }
    }

    /// Where the first record of `pid` stands.
    fn find(&self, pid: u32) -> (found: Option<usize>)
        ensures
            match found {
                Some(i) => i < self@.len() && entry_of(self@, pid) == Some(self@[i as int]),
                None => entry_of(self@, pid) is None,
            },
    {
        let mut i: usize = 0;
        assert(self@.skip(0) =~= self@);
        while i < self.processes.len()
            invariant
                i <= self@.len(),
                self@ == self.processes@,
                entry_of(self@, pid) == entry_of(self@.skip(i as int), pid),
            decreases self@.len() - i,
        {
            if self.processes[i].pid == pid {
                return Some(i);
            }
            assert(self@.skip(i as int).skip(1) =~= self@.skip(i + 1));
            i += 1;
        }
        None
    }

    /// The parent that the snapshot records for `pid`.
    pub fn get_parent_process_id(&self, pid: u32) -> (parent: Option<u32>)
        ensures
            parent == parent_of(self@, pid),
    {
        match self.find(pid) {
            Some(i) => Some(self.processes[i].ppid),
            None => None,
        }
    }

    /// The process tree of `pid` as lines for a log: the header, then the
    /// records from `pid` upwards, one line each, indented by generation.
    pub fn log_process_tree(&self, pid: u32) -> (lines: Vec<String>)
        ensures
            texts(lines@) == tree_lines(self@, pid),
    {
        let mut header = "Process tree for PID ".to_owned();
        push_decimal(&mut header, pid);
        header.append(":");
        let mut lines: Vec<String> = Vec::new();
        lines.push(header);
        let ghost chain = process_chain(self@, pid, 0);
        let ghost mut seen: Seq<ProcessInfo> = Seq::empty();
        let mut current_pid: u32 = pid;
        let mut depth: usize = 0;
        let mut done = false;
        assert(seen + chain =~= chain);
        while depth < MAX_TREE_DEPTH && !done
            invariant
                depth <= MAX_TREE_DEPTH,
                chain == process_chain(self@, pid, 0),
                seen.len() == depth || done,
                chain == if done {
                    seen
                } else {
                    seen + process_chain(self@, current_pid, depth as nat)
                },
                lines@.len() == seen.len() + 1,
                lines@[0]@ == tree_header(pid),
                forall|k: int| 0 <= k < seen.len() ==> (#[trigger] lines@[k + 1])@ == tree_line(
                    k as nat,
                    seen[k],
                ),
            decreases MAX_TREE_DEPTH - depth + (if done { 0int } else { 1int }),
        {
            match self.find(current_pid) {
                Some(i) => {
                    let info = &self.processes[i];
                    let line = format_tree_line(depth, info);
                    lines.push(line);
                    proof {
                        seen = seen.push(*info);
                    }
                    if info.ppid == 0 || info.ppid == 1 {
                        done = true;
                        proof {
                            assert(seen =~= seen.drop_last() + seq![*info]);
                        }
                    } else {
                        proof {
                            assert(seen + process_chain(self@, info.ppid, (depth + 1) as nat)
                                =~= seen.drop_last() + (seq![*info] + process_chain(
                                self@,
                                info.ppid,
                                (depth + 1) as nat,
                            )));
                        }
                        current_pid = info.ppid;
                        depth += 1;
                    }
                },
                None => {
                    done = true;
                    proof {
                        assert(seen + Seq::<ProcessInfo>::empty() =~= seen);
                    }
                },
            }
        }
        proof {
            if !done {
                assert(seen + Seq::<ProcessInfo>::empty() =~= seen);
            }
            assert(chain == seen);
            let expected = tree_lines(self@, pid);
            assert(expected.len() == lines@.len());
            assert forall|j: int| 0 <= j < lines@.len() implies texts(lines@)[j] == expected[j] by {
                if j > 0 {
                    assert(lines@[(j - 1) + 1]@ == tree_line((j - 1) as nat, seen[j - 1]));
                }
            }
            assert(texts(lines@) =~= expected);
        }
        lines
    }

    /// The nearest ancestor of `pid` that is a terminal emulator, looking at
    /// most `max_depth` parents up.
    pub fn find_terminal_ancestor(&self, pid: u32, max_depth: usize) -> (terminal: Option<u32>)
        ensures
            terminal == terminal_ancestor(self@, pid, max_depth as nat),
    {
        let mut current_pid: u32 = pid;
        let mut depth: usize = 0;
        while depth < max_depth
            invariant
                depth <= max_depth,
                terminal_ancestor(self@, pid, max_depth as nat) == terminal_ancestor(
                    self@,
                    current_pid,
                    (max_depth - depth) as nat,
                ),
            decreases max_depth - depth,
        {
            match self.get_parent_process_id(current_pid) {
                Some(parent_pid) => {
                    match self.find(parent_pid) {
                        Some(i) => {
                            if is_terminal(self.processes[i].name.as_str()) {
                                return Some(parent_pid);
                            }
                        },
                        None => {},
                    }
                    current_pid = parent_pid;
                    depth += 1;
                },
                None => {
                    return None;
                },
            }
        }
        None
    }

    /// The snapshot's record of `pid`: its name and its parent.
    pub fn get_process_info(&self, pid: u32) -> (info: Option<ProcessInfo>)
        ensures
            info == entry_of(self@, pid),
    {
        match self.find(pid) {
            Some(i) => {
                let found = &self.processes[i];
                Some(ProcessInfo { pid: found.pid, ppid: found.ppid, name: found.name.clone() })
            },
            None => None,
        }
    }
}

} // verus!
