use transarch::blob::BlobStore;
use transarch::embedding::{wasm, WASM_TARGET};
use transarch::plan::Action;
use transarch::staging::build;

/// Plans one single-binary build of `source` and gives what it would write
/// into the staging project and what it would embed.
fn embedded(store: &mut BlobStore, staged: bool, source: &str) -> (String, String, String) {
    let planned = build("/w/target", staged, Some(WASM_TARGET.to_string()), None, source);
    let written = planned
        .steps
        .iter()
        .find_map(|step| match &step.action {
            Action::Write { path, contents } if path.ends_with("src/lib.rs") => {
                Some(contents.clone())
            }
            _ => None,
        })
        .unwrap();
    let staging = planned.end.unwrap();
    let embedding = wasm(store, &staging.dir).unwrap();
    let blob = match &embedding.steps[0].action {
        Action::Copy { to, .. } => to.clone(),
        other => panic!("not a copy: {other:?}"),
    };
    (written, blob, embedding.text)
}

#[test]
fn two_are_not_the_same() {
    let mut store = BlobStore::new();
    let a = embedded(
        &mut store,
        false,
        "#[no_mangle] pub extern \"C\" fn hi() { println!(\"hello 1\"); }",
    );
    let b = embedded(
        &mut store,
        true,
        "#[no_mangle] pub extern \"C\" fn hi() { println!(\"hello 2\"); }",
    );

    assert_ne!(a, b);
    assert_ne!(a.0, b.0);
    assert_ne!(a.1, b.1);
    assert_ne!(a.2, b.2);
}
