use bvh_gav::bvh::{children_lists, Bvh, JointRecord};
use bvh_gav::error::BvhAssetLoaderError;
use bvh_gav::hierarchy::JointHierarchy;
use bvh_gav::math::Vec3;

const ZERO: Vec3 = Vec3 { x: 0, y: 0, z: 0 };

fn node(name: &str, children: Vec<JointHierarchy>) -> JointHierarchy {
    JointHierarchy { name: name.to_string(), offset: ZERO, end: None, children }
}

fn record(name: &str, parent: Option<usize>, children: Vec<usize>) -> JointRecord {
    JointRecord {
        name: name.to_string(),
        offset: ZERO,
        end_site: None,
        channels: Vec::new(),
        parent,
        children,
    }
}

fn capture(joints: Vec<JointRecord>) -> Bvh {
    Bvh { joints, frames: Vec::new(), frame_time: 33_333_333 }
}

fn path(names: &[&str]) -> Vec<String> {
    names.iter().map(|s| s.to_string()).collect()
}

#[test]
fn test_target_id_simple_hierarchy() {
    // Build a simple hierarchy: root -> child1 -> child2
    let child2 = JointHierarchy {
        name: "child2".to_string(),
        offset: ZERO,
        children: vec![],
        end: None,
    };
    let child1 = JointHierarchy {
        name: "child1".to_string(),
        offset: ZERO,
        children: vec![child2],
        end: None,
    };
    let root = JointHierarchy {
        name: "root".to_string(),
        offset: ZERO,
        children: vec![child1],
        end: None,
    };

    // Test finding child2
    let id = root.target_id("child2");
    assert!(id.is_some());
    let id = id.unwrap();
    let expected = path(&["root", "child1", "child2"]);
    assert_eq!(id, expected);

    // Test finding root
    let id = root.target_id("root");
    assert!(id.is_some());
    let id = id.unwrap();
    let expected = path(&["root"]);
    assert_eq!(id, expected);

    // Test not found
    let id = root.target_id("not_a_joint");
    assert!(id.is_none());
}

#[test]
fn target_id_backtracks_out_of_a_failed_branch() {
    let root = node("root", vec![node("A", vec![node("B", vec![])]), node("C", vec![])]);
    assert_eq!(root.target_id("C"), Some(path(&["root", "C"])));
    assert_eq!(root.target_id("B"), Some(path(&["root", "A", "B"])));
}

#[test]
fn target_id_backtracks_through_several_levels() {
    let root = node(
        "root",
        vec![
            node("A", vec![node("B", vec![node("D", vec![])]), node("E", vec![])]),
            node("C", vec![node("F", vec![])]),
        ],
    );
    assert_eq!(root.target_id("E"), Some(path(&["root", "A", "E"])));
    assert_eq!(root.target_id("F"), Some(path(&["root", "C", "F"])));
    assert_eq!(root.target_id("missing"), None);
}

#[test]
fn target_id_takes_the_first_match_in_pre_order() {
    let root = node(
        "root",
        vec![node("A", vec![node("hand", vec![])]), node("hand", vec![])],
    );
    assert_eq!(root.target_id("hand"), Some(path(&["root", "A", "hand"])));
}

#[test]
fn joint_paths_are_listed_in_pre_order() {
    let root = node("root", vec![node("A", vec![node("B", vec![])]), node("C", vec![])]);
    assert_eq!(
        root.joint_paths(),
        vec![
            path(&["root"]),
            path(&["root", "A"]),
            path(&["root", "A", "B"]),
            path(&["root", "C"]),
        ]
    );
}

#[test]
fn children_are_listed_by_parent() {
    let parents = vec![None, Some(0), Some(0), Some(1), Some(0), Some(9), Some(3)];
    assert_eq!(
        children_lists(&parents),
        vec![vec![1, 2, 4], vec![3], vec![], vec![6], vec![], vec![], vec![]]
    );
    assert_eq!(children_lists(&Vec::new()), Vec::<Vec<usize>>::new());
}

#[test]
fn hierarchy_is_built_from_the_list_of_joints() {
    let mut spine = record("spine", Some(0), vec![3]);
    spine.offset = Vec3::new(1, 2, 3);
    let mut head = record("head", Some(1), vec![]);
    head.end_site = Some(Vec3::new(7, 8, 9));
    let bvh = capture(vec![
        record("hips", None, vec![1, 2]),
        spine,
        record("leg", Some(0), vec![]),
        head,
    ]);
    let tree = JointHierarchy::try_from(&bvh).unwrap();
    let expected = JointHierarchy {
        name: "hips".to_string(),
        offset: ZERO,
        end: None,
        children: vec![
            JointHierarchy {
                name: "spine".to_string(),
                offset: Vec3::new(1, 2, 3),
                end: None,
                children: vec![JointHierarchy {
                    name: "head".to_string(),
                    offset: ZERO,
                    end: Some(Vec3::new(7, 8, 9)),
                    children: vec![],
                }],
            },
            node("leg", vec![]),
        ],
    };
    assert_eq!(tree, expected);
}

#[test]
fn walk_of_a_built_hierarchy_visits_every_joint_once() {
    let bvh = capture(vec![
        record("hips", None, vec![1, 4]),
        record("spine", Some(0), vec![2, 3]),
        record("left_arm", Some(1), vec![]),
        record("right_arm", Some(1), vec![]),
        record("leg", Some(0), vec![5]),
        record("foot", Some(4), vec![]),
    ]);
    let tree = JointHierarchy::try_from(&bvh).unwrap();
    let paths = tree.joint_paths();
    let mut visited: Vec<String> = paths.iter().map(|p| p.last().unwrap().clone()).collect();
    assert_eq!(visited, vec!["hips", "spine", "left_arm", "right_arm", "leg", "foot"]);
    visited.sort();
    let mut listed: Vec<String> = bvh.joints.iter().map(|j| j.name.clone()).collect();
    listed.sort();
    assert_eq!(visited, listed);
    for (i, a) in paths.iter().enumerate() {
        for b in &paths[i + 1..] {
            assert_ne!(a, b);
        }
    }
}

#[test]
fn hierarchy_of_a_single_joint() {
    let bvh = capture(vec![record("only", None, vec![])]);
    let tree = JointHierarchy::try_from(&bvh).unwrap();
    assert_eq!(tree, node("only", vec![]));
}

#[test]
fn hierarchy_of_no_joints_is_structure_error() {
    let bvh = capture(Vec::new());
    assert_eq!(JointHierarchy::try_from(&bvh), Err(BvhAssetLoaderError::StructureError));
}

#[test]
fn hierarchy_with_a_missing_child_is_structure_error() {
    let bvh = capture(vec![record("hips", None, vec![1, 7]), record("spine", Some(0), vec![])]);
    assert_eq!(JointHierarchy::try_from(&bvh), Err(BvhAssetLoaderError::StructureError));
}

#[test]
fn hierarchy_with_a_cycle_is_structure_error() {
    let bvh = capture(vec![
        record("hips", None, vec![1]),
        record("a", Some(0), vec![2]),
        record("b", Some(1), vec![1]),
    ]);
    assert_eq!(JointHierarchy::try_from(&bvh), Err(BvhAssetLoaderError::StructureError));
}

#[test]
fn hierarchy_as_deep_as_the_list_is_long() {
    let bvh = capture(vec![
        record("a", None, vec![1]),
        record("b", Some(0), vec![2]),
        record("c", Some(1), vec![3]),
        record("d", Some(2), vec![]),
    ]);
    let tree = JointHierarchy::try_from(&bvh).unwrap();
    assert_eq!(tree.target_id("d"), Some(path(&["a", "b", "c", "d"])));
}

#[test]
fn sibling_joints_of_one_name_share_a_path() {
    let root = node("root", vec![node("toe", vec![]), node("toe", vec![])]);
    let paths = root.joint_paths();
    assert_eq!(paths.len(), 3);
    assert_eq!(paths[1], paths[2]);
    assert_eq!(root.target_id("toe"), Some(path(&["root", "toe"])));
}

#[test]
fn joints_of_one_name_in_different_branches_have_different_paths() {
    let root = node(
        "root",
        vec![node("left", vec![node("toe", vec![])]), node("right", vec![node("toe", vec![])])],
    );
    let paths = root.joint_paths();
    assert_eq!(paths[2], path(&["root", "left", "toe"]));
    assert_eq!(paths[4], path(&["root", "right", "toe"]));
    for (i, a) in paths.iter().enumerate() {
        for b in &paths[i + 1..] {
            assert_ne!(a, b);
        }
    }
}

#[test]
fn hierarchy_of_a_joint_listed_twice_repeats_it() {
    let bvh = capture(vec![record("hips", None, vec![1, 1]), record("leg", Some(0), vec![])]);
    let tree = JointHierarchy::try_from(&bvh).unwrap();
    assert_eq!(tree, node("hips", vec![node("leg", vec![]), node("leg", vec![])]));
}
