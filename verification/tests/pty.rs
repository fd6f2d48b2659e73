use portable_pty::{native_pty_system, Child, CommandBuilder, MasterPty, PtySize};
use std::io::{Read, Write};
use std::sync::Mutex;
use terminal_forwarder::error::{IoStage, ManagerError, SpawnFailure, SpawnStage};
use terminal_forwarder::manager::{after_io, IoStep, ReadEvent, TerminalManager, READ_CHUNK};
use terminal_forwarder::session::{SpawnPlan, Spawned};

struct Pty {
    master: Box<dyn MasterPty + Send>,
    writer: Mutex<Box<dyn Write + Send>>,
    _child: Box<dyn Child + Send + Sync>,
}

fn failure(stage: SpawnStage, detail: String) -> SpawnFailure {
    SpawnFailure { stage, detail }
}

fn open(plan: &SpawnPlan) -> Result<(Spawned<Pty>, Box<dyn Read + Send>), SpawnFailure> {
    let pair = native_pty_system()
        .openpty(PtySize {
            rows: plan.size.rows,
            cols: plan.size.cols,
            pixel_width: plan.size.pixel_width,
            pixel_height: plan.size.pixel_height,
        })
        .map_err(|e| failure(SpawnStage::OpenPty, e.to_string()))?;
    let mut command = CommandBuilder::new(&plan.program);
    command.args(&plan.args);
    if let Some(cwd) = &plan.cwd {
        command.cwd(cwd);
    }
    let child = pair
        .slave
        .spawn_command(command)
        .map_err(|e| failure(SpawnStage::Spawn, e.to_string()))?;
    let pid = child.process_id();
    let reader = pair
        .master
        .try_clone_reader()
        .map_err(|e| failure(SpawnStage::CloneReader, e.to_string()))?;
    let writer = pair
        .master
        .take_writer()
        .map_err(|e| failure(SpawnStage::TakeWriter, e.to_string()))?;
    let handle = Pty { master: pair.master, writer: Mutex::new(writer), _child: child };
    Ok((Spawned { handle, pid }, reader))
}

fn run(pty: &Pty, first: IoStage, data: &[u8], cols: u16, rows: u16) -> Result<(), ManagerError> {
    let mut stage = first;
    loop {
        let outcome = match stage {
            IoStage::Write => pty.writer.lock().unwrap().write_all(data).map_err(|e| e.to_string()),
            IoStage::Flush => pty.writer.lock().unwrap().flush().map_err(|e| e.to_string()),
            IoStage::Resize => pty
                .master
                .resize(PtySize { rows, cols, pixel_width: 0, pixel_height: 0 })
                .map_err(|e| e.to_string()),
        };
        match after_io(stage, outcome) {
            IoStep::Perform(next) => stage = next,
            IoStep::Reply(reply) => return reply,
        }
    }
}

fn words(list: &[&str]) -> Vec<String> {
    list.iter().map(|w| w.to_string()).collect()
}

fn holds(haystack: &[u8], needle: &[u8]) -> bool {
    haystack.windows(needle.len()).any(|w| w == needle)
}

#[test]
fn echo_hello_reaches_the_reader() {
    let plan = SpawnPlan::new(words(&["echo", "hello"]), None, Some(80), Some(24));
    let (spawned, mut reader) = match open(&plan) {
        Ok(opened) => opened,
        Err(f) => panic!("{}", f.message()),
    };
    let mut manager: TerminalManager<Pty> = TerminalManager::new();
    let (id, pid) = match manager.create_session(Ok(spawned)) {
        Ok(created) => created,
        Err(e) => panic!("{}", e.message()),
    };
    assert_eq!(manager.len(), 1);
    assert_eq!(manager.pid(&id), Some(pid));
    assert!(pid > 0);

    let mut seen: Vec<u8> = Vec::new();
    let mut chunk = [0u8; READ_CHUNK];
    loop {
        let event = match reader.read(&mut chunk) {
            Ok(n) => ReadEvent::Chunk(&chunk[..n]),
            Err(_) => ReadEvent::Failed,
        };
        let again = manager.reader_step(&id, event);
        match manager.read(&id) {
            Ok(bytes) => seen.extend_from_slice(&bytes),
            Err(e) => panic!("{}", e.message()),
        }
        if !again || holds(&seen, b"hello\r\n") || holds(&seen, b"hello\n") {
            break;
        }
    }
    assert!(holds(&seen, b"hello\r\n") || holds(&seen, b"hello\n"), "{:?}", seen);
    assert_eq!(manager.read(&id), Ok(Vec::new()));

    manager.kill(&id);
    assert_eq!(manager.len(), 0);
    assert_eq!(manager.read(&id), Err(ManagerError::NotFound));
}

#[test]
fn input_written_to_cat_comes_back_in_order() {
    let plan = SpawnPlan::new(words(&["cat"]), None, None, None);
    let (spawned, mut reader) = match open(&plan) {
        Ok(opened) => opened,
        Err(f) => panic!("{}", f.message()),
    };
    let mut manager: TerminalManager<Pty> = TerminalManager::new();
    let (id, _) = match manager.create_session(Ok(spawned)) {
        Ok(created) => created,
        Err(e) => panic!("{}", e.message()),
    };

    let reply = match manager.resize(&id, 100, 40) {
        Ok((handle, size)) => run(handle, IoStage::Resize, &[], size.cols, size.rows),
        Err(e) => Err(e),
    };
    assert_eq!(reply, Ok(()));
    let size = manager.write(&id).ok().and_then(|h| h.master.get_size().ok());
    assert_eq!(size.map(|s| (s.cols, s.rows)), Some((100, 40)));

    let reply = match manager.write(&id) {
        Ok(handle) => run(handle, IoStage::Write, b"one\ntwo\n\x04", 0, 0),
        Err(e) => Err(e),
    };
    assert_eq!(reply, Ok(()));

    let mut polls: Vec<Vec<u8>> = Vec::new();
    let mut chunk = [0u8; READ_CHUNK];
    loop {
        let event = match reader.read(&mut chunk) {
            Ok(n) => ReadEvent::Chunk(&chunk[..n]),
            Err(_) => ReadEvent::Failed,
        };
        let again = manager.reader_step(&id, event);
        match manager.read(&id) {
            Ok(bytes) => polls.push(bytes),
            Err(e) => panic!("{}", e.message()),
        }
        if !again {
            break;
        }
    }
    let all: Vec<u8> = polls.concat();
    let text: String = String::from_utf8_lossy(&all).replace('\r', "");
    let lines: Vec<&str> = text.lines().filter(|l| *l == "one" || *l == "two").collect();
    assert_eq!(lines.iter().filter(|l| **l == "one").count(), 2, "{:?}", text);
    assert_eq!(lines.iter().filter(|l| **l == "two").count(), 2, "{:?}", text);
    assert_eq!(lines.first(), Some(&"one"));
    assert_eq!(lines.last(), Some(&"two"));
    manager.kill(&id);
    assert!(!manager.contains(&id));
}

#[test]
fn unknown_program_is_a_spawn_error() {
    let plan = SpawnPlan::new(
        words(&["/nonexistent/path/to/no-such-program"]),
        None,
        Some(80),
        Some(24),
    );
    let mut manager: TerminalManager<Pty> = TerminalManager::new();
    let outcome = open(&plan).map(|(spawned, _reader)| spawned);
    assert!(outcome.is_err());
    let reply = manager.create_session(outcome);
    match reply {
        Err(ManagerError::SpawnError(message)) => {
            assert!(message.starts_with("spawn failed: "), "{}", message);
        }
        other => panic!("{:?}", other),
    }
    assert_eq!(manager.len(), 0);
}
