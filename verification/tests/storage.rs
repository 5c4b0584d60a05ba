use m5ros::drivers::vga::{ScreenChar, Writer};
use m5ros::editor::{run_editor, Editor, EditorMode};
use m5ros::fs::{FileEntry, SimpleFS};

#[test]
fn files_round_trip() {
    let mut fs = SimpleFS::new();
    fs.init();
    let idx = fs.create_file("notes.txt").unwrap();
    assert_eq!(fs.find_file("notes.txt"), Some(idx));
    fs.write_file(idx, b"hello").unwrap();
    assert_eq!(fs.read_file(idx).unwrap(), b"hello");
    assert!(fs.create_file("notes.txt").is_err());
    let d = fs.create_dir("docs").unwrap();
    assert!(fs.list_files()[d].is_directory);
    fs.delete_file(idx).unwrap();
    assert_eq!(fs.find_file("notes.txt"), None);
    assert!(fs.read_file(idx).is_none());
}

#[test]
fn file_names() {
    let mut e = FileEntry::new();
    e.set_name("readme");
    assert_eq!(e.name_as_str(), "readme");
}

#[test]
fn editor_insert_and_quit() {
    let mut w = Some(Writer::new(vec![ScreenChar { ascii_character: b' ', color_code: 0x0F }; 2000]));
    let mut ed: Editor = run_editor(None, &mut w);
    assert_eq!(ed.mode, EditorMode::Normal);
    assert!(!ed.handle_key(b'i'));
    assert_eq!(ed.mode, EditorMode::Insert);
    ed.handle_key(b'h');
    ed.handle_key(b'i');
    assert_eq!(&ed.buffer.lines[0].chars[0..2], b"hi");
    ed.handle_key(8);
    assert_eq!(ed.buffer.lines[0].length, 1);
    ed.handle_key(27);
    assert_eq!(ed.mode, EditorMode::Normal);
    ed.handle_key(b':');
    ed.handle_key(b'q');
    let quit = ed.handle_key(b'\n');
    assert!(!quit);
    ed.handle_key(b':');
    ed.handle_key(b'q');
    ed.handle_key(b'!');
    assert!(ed.handle_key(b'\n'));
}

#[test]
fn files_keep_their_own_storage() {
    let mut fs = SimpleFS::new();
    fs.init();
    let a = fs.create_file("a").unwrap();
    let b = fs.create_file("b").unwrap();
    fs.write_file(a, b"first").unwrap();
    fs.write_file(b, b"second file").unwrap();
    assert_eq!(fs.read_file(a).unwrap(), b"first");
    assert_eq!(fs.read_file(b).unwrap(), b"second file");
    assert_eq!(fs.list_files()[a].data_offset, a * 32768);
}

#[test]
fn deleted_slots_are_reused() {
    let mut fs = SimpleFS::new();
    fs.init();
    let mut names = Vec::new();
    for i in 1..64 {
        names.push(format!("f{}", i));
    }
    for (i, n) in names.iter().enumerate() {
        assert_eq!(fs.create_file(n), Ok(i + 1));
    }
    assert_eq!(fs.create_file("extra"), Err("Maximum file limit reached"));
    fs.delete_file(5).unwrap();
    assert_eq!(fs.create_file("extra"), Ok(5));
    assert_eq!(fs.find_file("extra"), Some(5));
    assert_eq!(fs.create_file("more"), Err("Maximum file limit reached"));
    assert_eq!(fs.create_dir("f7"), Err("Maximum file limit reached"));
    fs.delete_file(9).unwrap();
    assert_eq!(fs.create_dir("f7"), Err("Directory already exists"));
    assert_eq!(fs.create_dir("d"), Ok(9));
}

#[test]
fn long_names_are_unique_by_their_stored_part() {
    let mut fs = SimpleFS::new();
    fs.init();
    let long = "abcdefghijklmnopqrstuvwxyz0123456789";
    let i = fs.create_file(long).unwrap();
    assert_eq!(fs.create_file(long), Err("File already exists"));
    assert_eq!(fs.find_file("abcdefghijklmnopqrstuvwxyz012345"), Some(i));
}

#[test]
fn create_appends_while_the_table_has_room() {
    let mut fs = SimpleFS::new();
    fs.init();
    let a = fs.create_file("a").unwrap();
    assert_eq!(a, 1);
    fs.delete_file(a).unwrap();
    let b = fs.create_file("b").unwrap();
    assert_eq!(b, 2);
    assert_eq!(fs.list_files().len(), 3);
    assert_eq!(fs.find_file("b"), Some(2));
    assert_eq!(fs.read_file(2).unwrap(), b"");
    let d = fs.create_dir("docs").unwrap();
    assert_eq!(fs.list_files()[d].data_offset, 0);
}
