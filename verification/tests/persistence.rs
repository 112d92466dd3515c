use dot_manifest::codec::{decode_table, encode_table, read_entry, write_entry};
use dot_manifest::entries::Entries;
use dot_manifest::entry::Entry;
use dot_manifest::manifest::Manifest;

fn reload(m: &Manifest) -> Manifest {
    let text = m.save().unwrap();
    Manifest::load(m.path().to_string(), m.base_dir().to_string(), Some(&text))
}

fn assert_same_entries(a: &Manifest, b: &Manifest) {
    let mut names_a = a.names();
    let mut names_b = b.names();
    names_a.sort();
    names_b.sort();
    assert_eq!(names_a, names_b);
    for name in names_a {
        let x = a.entry(&name).unwrap();
        let y = b.entry(&name).unwrap();
        assert_eq!(x.local_file, y.local_file);
        assert_eq!(x.path, y.path);
        assert_eq!(x.dir, y.dir);
    }
}

#[test]
fn round_trip_of_the_empty_manifest() {
    let m = Manifest::new("/cfg/dot".to_string());
    let text = m.save().unwrap();
    assert_eq!(text, "");
    let back = reload(&m);
    assert!(back.names().is_empty());
    assert_eq!(back.path(), "/cfg/dot/.dot.toml");
}

#[test]
fn round_trip_of_one_entry() {
    let mut m = Manifest::new("/cfg/dot".to_string());
    assert!(m.record_entry("shellrc", "/tmp/x".to_string(), false));
    let back = reload(&m);
    assert_same_entries(&m, &back);
    assert_eq!(back.names(), vec!["shellrc".to_string()]);
}

#[test]
fn round_trip_of_many_entries_with_unusual_names() {
    let mut m = Manifest::new("/cfg/dot".to_string());
    for (name, path) in [
        ("bashrc", "/home/u/.bashrc"),
        ("with.dot", "/home/u/.config/a.b"),
        ("two words", "/home/u/my file"),
        ("日本語", "/home/u/設定"),
        ("émoji 🎉", "/tmp/🎉"),
        ("quote\"back\\slash", "C:\\Users\\u\\x"),
        ("", "/tmp/empty-name"),
        ("UPPER", "/tmp/upper"),
    ] {
        assert!(m.add_entry(name, path.to_string(), false).unwrap().is_some());
        assert!(m.record_entry(name, path.to_string(), false));
    }
    let back = reload(&m);
    assert_eq!(back.names().len(), 8);
    assert_same_entries(&m, &back);
    assert_eq!(back.entry("with.dot").unwrap().path, "/home/u/.config/a.b");
    assert_eq!(back.entry("日本語").unwrap().local_file, "/cfg/dot/日本語");
}

#[test]
fn saved_text_has_one_table_per_entry() {
    let mut m = Manifest::new("/cfg/dot".to_string());
    assert!(m.record_entry("shellrc", "/tmp/x".to_string(), false));
    let text = m.save().unwrap();
    assert_eq!(
        text,
        "[shellrc]\ndir = false\nlocal_file = \"/cfg/dot/shellrc\"\npath = \"/tmp/x\"\n"
    );
}

#[test]
fn load_reads_the_three_fields() {
    let text = "[vim]\nlocal_file = \"/store/vim\"\npath = \"/home/u/.vimrc\"\ndir = false\n\n\
                [conf]\nlocal_file = \"/store/conf\"\npath = \"/etc/conf.d\"\ndir = true\n";
    let m = Manifest::load("/m.toml".to_string(), "/store".to_string(), Some(text));
    assert_eq!(m.names().len(), 2);
    let vim = m.entry("vim").unwrap();
    assert_eq!(vim.local_file, "/store/vim");
    assert_eq!(vim.path, "/home/u/.vimrc");
    assert!(!vim.dir);
    let conf = m.entry("conf").unwrap();
    assert!(conf.dir);
    assert_eq!(conf.path, "/etc/conf.d");
}

#[test]
fn load_passes_over_fields_it_does_not_know() {
    let text = "[vim]\nlocal_file = \"/store/vim\"\npath = \"/p\"\ndir = false\nnote = 3\n";
    let m = Manifest::load("/m.toml".to_string(), "/store".to_string(), Some(text));
    assert_eq!(m.entry("vim").unwrap().path, "/p");
}

#[test]
fn load_of_invalid_text_gives_the_empty_manifest_and_keeps_the_path() {
    let m = Manifest::load(
        "/some/where.toml".to_string(),
        "/store".to_string(),
        Some("this is [not toml"),
    );
    assert!(m.names().is_empty());
    assert_eq!(m.path(), "/some/where.toml");
    assert_eq!(m.base_dir(), "/store");
    assert_eq!(m.save().unwrap(), "");
}

#[test]
fn load_of_an_unreadable_file_gives_the_empty_manifest() {
    let m = Manifest::load("/p.toml".to_string(), "/store".to_string(), None);
    assert!(m.names().is_empty());
    assert_eq!(m.path(), "/p.toml");
}

#[test]
fn load_of_an_empty_file_gives_the_empty_manifest() {
    let m = Manifest::load("/p.toml".to_string(), "/store".to_string(), Some(""));
    assert!(m.names().is_empty());
}

#[test]
fn one_bad_entry_spoils_the_whole_document() {
    let good = "[vim]\nlocal_file = \"/store/vim\"\npath = \"/p\"\ndir = false\n";
    for bad in [
        "[x]\nlocal_file = \"/s\"\npath = \"/p\"\n",
        "[x]\nlocal_file = \"/s\"\ndir = false\n",
        "[x]\npath = \"/p\"\ndir = false\n",
        "[x]\nlocal_file = \"/s\"\npath = \"/p\"\ndir = \"false\"\n",
        "[x]\nlocal_file = \"/s\"\npath = \"/p\"\ndir = 0\n",
        "[x]\nlocal_file = 1\npath = \"/p\"\ndir = false\n",
        "[x]\nlocal_file = \"/s\"\npath = [\"/p\"]\ndir = false\n",
        "[x]\n",
    ] {
        let text = format!("{}\n{}", good, bad);
        let m = Manifest::load("/m.toml".to_string(), "/store".to_string(), Some(&text));
        assert!(m.names().is_empty());
        assert_eq!(m.path(), "/m.toml");
    }
    let m = Manifest::load("/m.toml".to_string(), "/store".to_string(), Some(good));
    assert_eq!(m.names().len(), 1);
}

#[test]
fn top_level_values_that_are_no_tables_spoil_the_document() {
    for text in ["x = 1\n", "x = \"text\"\n", "x = true\n", "x = [\"/s\", \"/p\", false]\n"] {
        let m = Manifest::load("/m.toml".to_string(), "/store".to_string(), Some(text));
        assert!(m.names().is_empty());
    }
}

#[test]
fn from_parsed_takes_a_table_or_none() {
    let mut fields = toml::Table::new();
    fields.insert("local_file".to_string(), toml::Value::String("/store/a".to_string()));
    fields.insert("path".to_string(), toml::Value::String("/home/a".to_string()));
    fields.insert("dir".to_string(), toml::Value::Boolean(true));
    let mut doc = toml::Table::new();
    doc.insert("a".to_string(), toml::Value::Table(fields));
    let m = Manifest::from_parsed("/m".to_string(), "/store".to_string(), Some(doc));
    let e = m.entry("a").unwrap();
    assert_eq!(e.local_file, "/store/a");
    assert_eq!(e.path, "/home/a");
    assert!(e.dir);
    let none = Manifest::from_parsed("/m".to_string(), "/store".to_string(), None);
    assert!(none.names().is_empty());
    assert_eq!(none.path(), "/m");
}

#[test]
fn an_entry_is_read_back_from_the_value_it_was_written_as() {
    let e = Entry { local_file: "/store/a b".to_string(), path: "/x/ü".to_string(), dir: true };
    let v = write_entry(&e);
    let t = v.as_table().unwrap();
    assert_eq!(t.len(), 3);
    assert_eq!(t["local_file"].as_str(), Some("/store/a b"));
    assert_eq!(t["path"].as_str(), Some("/x/ü"));
    assert_eq!(t["dir"].as_bool(), Some(true));
    let back = read_entry(&v).unwrap();
    assert_eq!(back.local_file, e.local_file);
    assert_eq!(back.path, e.path);
    assert_eq!(back.dir, e.dir);
}

#[test]
fn values_of_other_kinds_hold_no_entry() {
    assert!(read_entry(&toml::Value::String("x".to_string())).is_none());
    assert!(read_entry(&toml::Value::Boolean(true)).is_none());
    assert!(read_entry(&toml::Value::Integer(3)).is_none());
    assert!(read_entry(&toml::Value::Array(vec![])).is_none());
    assert!(read_entry(&toml::Value::Table(toml::Table::new())).is_none());
}

#[test]
fn tables_and_entries_convert_both_ways() {
    let mut es = Entries::new();
    es.insert(
        "b".to_string(),
        Entry { local_file: "/s/b".to_string(), path: "/b".to_string(), dir: false },
    );
    es.insert(
        "a".to_string(),
        Entry { local_file: "/s/a".to_string(), path: "/a".to_string(), dir: true },
    );
    let t = encode_table(&es);
    assert_eq!(t.len(), 2);
    assert_eq!(t["a"]["path"].as_str(), Some("/a"));
    assert_eq!(t["b"]["dir"].as_bool(), Some(false));
    let back = decode_table(&t).unwrap();
    assert_eq!(back.len(), 2);
    assert_eq!(back.get("a").unwrap().local_file, "/s/a");
    assert!(back.get("a").unwrap().dir);
    assert_eq!(back.get("b").unwrap().path, "/b");
}
