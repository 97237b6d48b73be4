use nb::{decode_checkpoint, select_heap_path, Config};

#[test]
fn explicit_config() {
    let c = Config::new("/i", "/n", "/s");
    assert_eq!(c.index, "/i");
    assert_eq!(c.notes, "/n");
    assert_eq!(c.state, "/s");
}

#[test]
fn default_config() {
    let c = Config::default();
    assert_eq!(c.state, "/tmp/nb");
    assert_eq!(c.index, "/tmp/nb/index");
    assert_eq!(c.notes, "/tmp/notes");
}

#[test]
fn heap_path_precedence() {
    let s = |v: &str| Some(v.to_string());
    assert_eq!(select_heap_path(s("/flag"), s("/env"), s("/cwd")), s("/flag"));
    assert_eq!(select_heap_path(None, s("/env"), s("/cwd")), s("/env"));
    assert_eq!(select_heap_path(None, None, s("/cwd")), s("/cwd"));
    assert_eq!(select_heap_path(None, None, None), None);
}

#[test]
fn checkpoint_decoding() {
    assert_eq!(decode_checkpoint(&Ok(Some(vec![0x63, 0xc3, 0xa9]))), Some("cé".to_string()));
    assert_eq!(decode_checkpoint(&Ok(Some(vec![0xc3]))), None);
    assert_eq!(decode_checkpoint(&Ok(None)), None);
    assert_eq!(decode_checkpoint(&Err("io".to_string())), None);
}
