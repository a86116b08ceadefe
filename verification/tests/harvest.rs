use transarch::blob::BlobStore;
use transarch::embedding::{cross, wasm, Embedding};
use transarch::emit::{embed, emit};
use transarch::harvest::{copies, literals, number};
use transarch::plan::{Action, Failure, Step};
use transarch::tree::{count, Tree};

const DIR: &str = "/w/target/transarch/transarch-tmp-crate";
const OUT: &str = "/w/target/transarch/transarch-tmp-crate/target/t/debug";

fn file<L>(name: &str, leaf: L) -> (String, Tree<L>) {
    (name.to_string(), Tree::File(leaf))
}

fn dir<L>(name: &str, children: Vec<(String, Tree<L>)>) -> (String, Tree<L>) {
    (name.to_string(), Tree::Dir(children))
}

fn listing() -> Tree<()> {
    Tree::Dir(vec![
        file("a", ()),
        dir("b", vec![file("c", ()), dir("empty", vec![]), file("d", ())]),
        file("e", ()),
    ])
}

fn copy(from: &str, to: &str) -> Step {
    Step {
        action: Action::Copy { from: from.to_string(), to: to.to_string() },
        failure: Failure::DriveFull,
    }
}

#[test]
fn count_counts_files_only() {
    assert_eq!(count(&listing()), Some(4));
    assert_eq!(count(&Tree::File(())), Some(1));
    assert_eq!(count(&Tree::<()>::Dir(vec![])), Some(0));
    assert_eq!(count(&Tree::Dir(vec![dir::<()>("x", vec![dir("y", vec![])])])), Some(0));
}

#[test]
fn number_follows_the_listing() {
    let (numbered, next) = number(&listing(), 5);
    assert_eq!(
        numbered,
        Tree::Dir(vec![
            file("a", 5),
            dir("b", vec![file("c", 6), dir("empty", vec![]), file("d", 7)]),
            file("e", 8),
        ])
    );
    assert_eq!(next, 9);
}

#[test]
fn number_of_a_single_file() {
    assert_eq!(number(&Tree::File(()), 0), (Tree::File(0), 1));
    assert_eq!(number(&Tree::File(()), usize::MAX - 1), (Tree::File(usize::MAX - 1), usize::MAX));
}

#[test]
fn number_of_an_empty_directory_takes_nothing() {
    assert_eq!(number(&Tree::Dir(vec![]), usize::MAX), (Tree::Dir(vec![]), usize::MAX));
}

#[test]
fn copies_go_from_the_output_into_the_blob_store() {
    let (numbered, _) = number(&listing(), 5);
    let mut steps = Vec::new();
    copies(&numbered, OUT, OUT, &mut steps);
    assert_eq!(
        steps,
        vec![
            copy(&format!("{OUT}/a"), &format!("{OUT}/../blob5")),
            copy(&format!("{OUT}/b/c"), &format!("{OUT}/../blob6")),
            copy(&format!("{OUT}/b/d"), &format!("{OUT}/../blob7")),
            copy(&format!("{OUT}/e"), &format!("{OUT}/../blob8")),
        ]
    );
}

#[test]
fn copies_are_added_after_what_is_there() {
    let mut steps = vec![copy("x", "y")];
    copies(&Tree::File(3), "/o/bin", "/o", &mut steps);
    assert_eq!(steps, vec![copy("x", "y"), copy("/o/bin", "/o/../blob3")]);
}

#[test]
fn literals_are_quoted_blob_paths() {
    let tree = Tree::Dir(vec![file("a", 0), dir("b", vec![file("c", 10)])]);
    assert_eq!(
        literals(&tree, "/o"),
        Tree::Dir(vec![
            file("\"a\"", "\"/o/../blob0\"".to_string()),
            dir("\"b\"", vec![file("\"c\"", "\"/o/../blob10\"".to_string())]),
        ])
    );
}

#[test]
fn literals_escape_what_a_string_literal_cannot_hold() {
    assert_eq!(
        literals(&Tree::File(1), "/o \"q\"\\n"),
        Tree::File("\"/o \\\"q\\\"\\\\n/../blob1\"".to_string())
    );
}

#[test]
fn literals_escape_names_too() {
    let tree = Tree::Dir(vec![file("a\\nb", 0), file("say \"hi\"", 1), file("tab\there", 2)]);
    assert_eq!(
        literals(&tree, "/o"),
        Tree::Dir(vec![
            file("\"a\\\\nb\"", "\"/o/../blob0\"".to_string()),
            file("\"say \\\"hi\\\"\"", "\"/o/../blob1\"".to_string()),
            file("\"tab\\there\"", "\"/o/../blob2\"".to_string()),
        ])
    );
}

#[test]
fn embed_wraps_a_literal() {
    assert_eq!(embed("\"/o/../blob0\""), "include_bytes!(\"/o/../blob0\")");
    assert_eq!(embed(""), "include_bytes!()");
}

#[test]
fn emit_of_a_file_is_its_embedding() {
    assert_eq!(emit(&Tree::File("\"path\"".to_string())), "include_bytes!(\"path\")");
}

#[test]
fn emit_of_an_empty_directory() {
    assert_eq!(
        emit(&Tree::Dir(vec![])),
        "Into::<::transarch::Dir>::into({let mut map=::std::vec::Vec::new();map})"
    );
}

#[test]
fn emit_nests_directories() {
    let tree = Tree::Dir(vec![
        file("\"a\"", "\"left\"".to_string()),
        dir("\"b\"", vec![file("\"c\"", "\"right\"".to_string())]),
    ]);
    let inner = "Into::<::transarch::Dir>::into({let mut map=::std::vec::Vec::new();\
                 map.push((\"c\",::transarch::Entry::File(include_bytes!(\"right\"))));map})";
    let expected = format!(
        "Into::<::transarch::Dir>::into({{let mut map=::std::vec::Vec::new();\
         map.push((\"a\",::transarch::Entry::File(include_bytes!(\"left\"))));\
         map.push((\"b\",::transarch::Entry::Dir({inner})));map}})"
    );
    assert_eq!(emit(&tree), expected);
}

#[test]
fn cross_harvests_a_whole_directory() {
    let mut store = BlobStore::new();
    store.allocate();
    let listing = Tree::Dir(vec![file("a", ()), dir("b", vec![file("c", ())])]);
    let embedding = cross(&mut store, DIR, "t", &listing).unwrap();
    let inner = format!(
        "Into::<::transarch::Dir>::into({{let mut map=::std::vec::Vec::new();\
         map.push((\"c\",::transarch::Entry::File(include_bytes!(\"{OUT}/../blob2\"))));map}})"
    );
    let text = format!(
        "Into::<::transarch::Dir>::into({{let mut map=::std::vec::Vec::new();\
         map.push((\"a\",::transarch::Entry::File(include_bytes!(\"{OUT}/../blob1\"))));\
         map.push((\"b\",::transarch::Entry::Dir({inner})));map}})"
    );
    assert_eq!(
        embedding,
        Embedding {
            steps: vec![
                copy(&format!("{OUT}/a"), &format!("{OUT}/../blob1")),
                copy(&format!("{OUT}/b/c"), &format!("{OUT}/../blob2")),
            ],
            text,
        }
    );
    assert_eq!(store.allocate(), Some(3));
}

#[test]
fn cross_spells_a_name_so_that_it_reads_back_the_same() {
    let mut store = BlobStore::new();
    let name = "a\\nb";
    assert_eq!(name.chars().count(), 4);
    let listing = Tree::Dir(vec![file(name, ())]);
    let embedding = cross(&mut store, DIR, "t", &listing).unwrap();
    assert_eq!(
        embedding.text,
        format!(
            "Into::<::transarch::Dir>::into({{let mut map=::std::vec::Vec::new();\
             map.push((\"a\\\\nb\",::transarch::Entry::File(include_bytes!(\"{OUT}/../blob0\"))));map}})"
        )
    );
    assert_eq!(embedding.steps, vec![copy(&format!("{OUT}/a\\nb"), &format!("{OUT}/../blob0"))]);
}

#[test]
fn cross_of_a_single_file_copies_the_output_itself() {
    let mut store = BlobStore::new();
    let embedding = cross(&mut store, DIR, "t", &Tree::File(())).unwrap();
    assert_eq!(embedding.steps, vec![copy(OUT, &format!("{OUT}/../blob0"))]);
    assert_eq!(embedding.text, format!("include_bytes!(\"{OUT}/../blob0\")"));
}

#[test]
fn cross_across_invocations_never_reuses_an_identifier() {
    let mut store = BlobStore::new();
    let mut targets = Vec::new();
    for _ in 0..3 {
        let embedding = cross(&mut store, DIR, "t", &listing()).unwrap();
        for step in embedding.steps {
            match step.action {
                Action::Copy { to, .. } => targets.push(to),
                other => panic!("not a copy: {other:?}"),
            }
        }
    }
    let expected: Vec<String> = (0..12).map(|id| format!("{OUT}/../blob{id}")).collect();
    assert_eq!(targets, expected);
}

#[test]
fn cross_fails_whole_when_identifiers_run_out() {
    let mut store = BlobStore::new();
    store.reserve(usize::MAX - 3);
    assert_eq!(cross(&mut store, DIR, "t", &listing()), Err(Failure::OutOfIds));
    assert_eq!(store.allocate(), Some(usize::MAX - 3));
}

#[test]
fn wasm_harvests_the_one_binary() {
    let mut store = BlobStore::new();
    let out = format!("{DIR}/target/wasm32-unknown-unknown/debug");
    let embedding = wasm(&mut store, DIR).unwrap();
    assert_eq!(
        embedding,
        Embedding {
            steps: vec![Step {
                action: Action::Copy {
                    from: format!("{out}/transarch_tmp_pkg.wasm"),
                    to: format!("{out}/../blob0"),
                },
                failure: Failure::DriveFull,
            }],
            text: format!("include_bytes!(\"{out}/../blob0\")"),
        }
    );
}

#[test]
fn wasm_copy_that_fails_carries_the_hint() {
    let mut store = BlobStore::new();
    let embedding = wasm(&mut store, DIR).unwrap();
    assert_eq!(embedding.steps.len(), 1);
    assert_eq!(embedding.steps[0].failure.message(), "your drive is full. do `cargo clean`");
}

#[test]
fn wasm_quotes_the_path_as_a_literal() {
    let mut store = BlobStore::new();
    let embedding = wasm(&mut store, "/w \"x\"").unwrap();
    assert_eq!(
        embedding.text,
        "include_bytes!(\"/w \\\"x\\\"/target/wasm32-unknown-unknown/debug/../blob0\")"
    );
}

#[test]
fn wasm_fails_when_identifiers_run_out() {
    let mut store = BlobStore::new();
    store.reserve(usize::MAX);
    assert_eq!(wasm(&mut store, DIR), Err(Failure::OutOfIds));
}
