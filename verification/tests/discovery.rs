use govsim::discovery::{
    collect_proposals, has_script_name, sort_paths, sort_proposals, Directory, Entry,
};
use govsim::order::{bytes_eq, component_before, path_before};

fn path(components: &[&str]) -> Vec<Vec<u8>> {
    components.iter().map(|c| c.as_bytes().to_vec()).collect()
}

fn file(components: &[&str]) -> Entry {
    Entry { path: path(components), is_file: true }
}

fn dir(components: &[&str]) -> Entry {
    Entry { path: path(components), is_file: false }
}

#[test]
fn directories_and_scripts_come_out_in_order() {
    let dirs = vec![
        Directory {
            path: path(&["root"]),
            entries: vec![dir(&["root", "b"]), dir(&["root", "a"])],
        },
        Directory {
            path: path(&["root", "b"]),
            entries: vec![file(&["root", "b", "y.move"]), file(&["root", "b", "x.move"])],
        },
        Directory {
            path: path(&["root", "a"]),
            entries: vec![file(&["root", "a", "y.move"]), file(&["root", "a", "x.move"])],
        },
    ];
    assert_eq!(
        collect_proposals(&dirs),
        vec![
            (
                path(&["root", "a"]),
                vec![path(&["root", "a", "x.move"]), path(&["root", "a", "y.move"])]
            ),
            (
                path(&["root", "b"]),
                vec![path(&["root", "b", "x.move"]), path(&["root", "b", "y.move"])]
            ),
        ]
    );
}

#[test]
fn a_directory_without_scripts_is_no_proposal() {
    let dirs = vec![
        Directory { path: path(&["r"]), entries: vec![file(&["r", "readme.md"]), dir(&["r", "p"])] },
        Directory { path: path(&["r", "p"]), entries: vec![] },
    ];
    assert_eq!(collect_proposals(&dirs), vec![]);
    assert_eq!(collect_proposals(&vec![]), vec![]);
}

#[test]
fn only_files_with_the_script_extension_are_steps() {
    let dirs = vec![Directory {
        path: path(&["p"]),
        entries: vec![
            file(&["p", "2.move"]),
            file(&["p", "notes.txt"]),
            dir(&["p", "dir.move"]),
            file(&["p", ".move"]),
            file(&["p", "move"]),
            file(&["p", "1.move.bak"]),
            file(&["p", "1.a.move"]),
            file(&["p", "3.MOVE"]),
            Entry { path: vec![], is_file: true },
        ],
    }];
    assert_eq!(
        collect_proposals(&dirs),
        vec![(path(&["p"]), vec![path(&["p", "1.a.move"]), path(&["p", "2.move"])])]
    );
}

#[test]
fn the_root_itself_can_be_a_proposal() {
    let dirs = vec![
        Directory { path: path(&["r"]), entries: vec![file(&["r", "s.move"]), dir(&["r", "sub"])] },
        Directory { path: path(&["r", "sub"]), entries: vec![file(&["r", "sub", "t.move"])] },
    ];
    assert_eq!(
        collect_proposals(&dirs),
        vec![
            (path(&["r"]), vec![path(&["r", "s.move"])]),
            (path(&["r", "sub"]), vec![path(&["r", "sub", "t.move"])]),
        ]
    );
}

#[test]
fn names_of_scripts() {
    assert!(has_script_name(&b"x.move".to_vec()));
    assert!(has_script_name(&b"..move".to_vec()));
    assert!(has_script_name(&b"a.b.move".to_vec()));
    assert!(!has_script_name(&b".move".to_vec()));
    assert!(!has_script_name(&b"move".to_vec()));
    assert!(!has_script_name(&b"".to_vec()));
    assert!(!has_script_name(&b"x.mov".to_vec()));
    assert!(!has_script_name(&b"x.move ".to_vec()));
    assert!(!has_script_name(&b"x.Move".to_vec()));
    assert!(!has_script_name(&b"xmove".to_vec()));
    assert!(!has_script_name(&b"x_move".to_vec()));
}

#[test]
fn paths_are_compared_component_by_component() {
    // as byte strings "a-b" comes before "a/b"; as paths "a/b" comes first
    assert!(path_before(&path(&["a", "b"]), &path(&["a-b"])));
    assert!(!path_before(&path(&["a-b"]), &path(&["a", "b"])));
    assert!(path_before(&path(&["a"]), &path(&["a", "b"])));
    assert!(!path_before(&path(&["a", "b"]), &path(&["a"])));
    assert!(path_before(&path(&[]), &path(&["a"])));
    assert!(!path_before(&path(&["a"]), &path(&["a"])));
    assert!(path_before(&path(&["a", "x"]), &path(&["b"])));
    assert!(path_before(&path(&["a", "b", "c"]), &path(&["a", "c"])));
    assert!(!path_before(&path(&["a", "c"]), &path(&["a", "b", "c"])));
}

#[test]
fn components_are_compared_byte_by_byte() {
    assert!(component_before(&b"a".to_vec(), &b"b".to_vec()));
    assert!(component_before(&b"a".to_vec(), &b"ab".to_vec()));
    assert!(component_before(&b"".to_vec(), &b"a".to_vec()));
    assert!(component_before(&b"Z".to_vec(), &b"a".to_vec()));
    assert!(component_before(&b"10".to_vec(), &b"9".to_vec()));
    assert!(component_before(&vec![0x7f], &vec![0x80]));
    assert!(!component_before(&b"a".to_vec(), &b"a".to_vec()));
    assert!(!component_before(&b"b".to_vec(), &b"a".to_vec()));
    assert!(!component_before(&b"ab".to_vec(), &b"a".to_vec()));
    assert!(bytes_eq(&b"ab".to_vec(), &b"ab".to_vec()));
    assert!(!bytes_eq(&b"ab".to_vec(), &b"ac".to_vec()));
    assert!(!bytes_eq(&b"ab".to_vec(), &b"a".to_vec()));
}

#[test]
fn paths_are_sorted() {
    let sorted = sort_paths(vec![
        path(&["p", "step_3.move"]),
        path(&["p", "step_1.move"]),
        path(&["p", "step_10.move"]),
        path(&["p", "step_2.move"]),
        path(&["p", "step_1.move"]),
    ]);
    assert_eq!(
        sorted,
        vec![
            path(&["p", "step_1.move"]),
            path(&["p", "step_1.move"]),
            path(&["p", "step_10.move"]),
            path(&["p", "step_2.move"]),
            path(&["p", "step_3.move"]),
        ]
    );
    assert_eq!(sort_paths(vec![]), Vec::<Vec<Vec<u8>>>::new());
    assert_eq!(sort_paths(vec![path(&["a"])]), vec![path(&["a"])]);
}

#[test]
fn proposals_of_the_same_directory_keep_their_order() {
    let sorted = sort_proposals(vec![
        (path(&["b"]), vec![path(&["1"])]),
        (path(&["a"]), vec![path(&["2"])]),
        (path(&["b"]), vec![path(&["3"])]),
        (path(&["a"]), vec![path(&["4"])]),
    ]);
    assert_eq!(
        sorted,
        vec![
            (path(&["a"]), vec![path(&["2"])]),
            (path(&["a"]), vec![path(&["4"])]),
            (path(&["b"]), vec![path(&["1"])]),
            (path(&["b"]), vec![path(&["3"])]),
        ]
    );
}
