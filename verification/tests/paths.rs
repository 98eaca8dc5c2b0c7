use codex_tui::paths::{file_name, sidecar_path};
use std::path::Path;

fn expected_sidecar(path: &str) -> Option<String> {
    let path = Path::new(path);
    let name = path.file_name()?.to_string_lossy().to_string();
    let sidecar = path.with_file_name(format!("{name}.meta.json"));
    Some(sidecar.to_str().unwrap().to_string())
}

fn sidecar(path: &str) -> Option<String> {
    sidecar_path(path.as_bytes()).map(|p| String::from_utf8(p).unwrap())
}

#[test]
fn sidecar_stands_beside_the_file() {
    assert_eq!(sidecar("a/b.jsonl"), Some("a/b.jsonl.meta.json".to_string()));
    assert_eq!(sidecar("/b.jsonl"), Some("/b.jsonl.meta.json".to_string()));
    assert_eq!(sidecar("b"), Some("b.meta.json".to_string()));
    assert_eq!(sidecar(".."), None);
    assert_eq!(sidecar("/"), None);
    assert_eq!(sidecar(""), None);
}

#[test]
fn paths_are_read_as_the_standard_library_does() {
    let pieces = ["", "/", "//", ".", "..", "a", "b.c", "/./", "./", "../", "a/", ".a", "é"];
    for x in pieces {
        for y in pieces {
            for z in pieces {
                let path = format!("{x}{y}{z}");
                assert_eq!(sidecar(&path), expected_sidecar(&path), "{path:?}");
                let name = file_name(path.as_bytes()).map(|n| n.to_vec());
                let std_name = Path::new(&path)
                    .file_name()
                    .map(|n| n.to_str().unwrap().as_bytes().to_vec());
                assert_eq!(name, std_name, "{path:?}");
                let slashed = format!("{x}/{y}/{z}");
                assert_eq!(sidecar(&slashed), expected_sidecar(&slashed), "{slashed:?}");
            }
        }
    }
}

#[test]
fn names_that_are_no_text_are_replaced() {
    assert_eq!(
        sidecar_path(b"d\xff/n\xff"),
        Some([b"d\xff/n".to_vec(), "\u{fffd}.meta.json".as_bytes().to_vec()].concat())
    );
}
