use crucible::timeline::{most_recent_matching_transform, next_matching_transform, TransformType};

#[test]
fn most_recent_takes_the_last_begun_match() {
    let kinds = vec![TransformType::Omni, TransformType::ScaleX, TransformType::ScaleY, TransformType::ScaleX];
    let begun = vec![true, true, true, false];
    assert_eq!(most_recent_matching_transform(&kinds, &begun, TransformType::ScaleX), Some(1));
    assert_eq!(most_recent_matching_transform(&kinds, &begun, TransformType::ScaleY), Some(2));
    assert_eq!(most_recent_matching_transform(&kinds, &begun, TransformType::ScaleZ), Some(0));
}

#[test]
fn most_recent_without_a_begun_transform() {
    let kinds = vec![TransformType::Omni, TransformType::TranslateX];
    let begun = vec![false, false];
    assert_eq!(most_recent_matching_transform(&kinds, &begun, TransformType::TranslateX), None);
    assert_eq!(most_recent_matching_transform(&Vec::new(), &Vec::new(), TransformType::Rotate), None);
}

#[test]
fn next_takes_the_first_later_match() {
    let kinds = vec![TransformType::Omni, TransformType::ScaleX, TransformType::ScaleR, TransformType::ScaleX];
    let after = vec![false, false, true, true];
    assert_eq!(next_matching_transform(&kinds, &after, TransformType::ScaleX), Some(3));
    assert_eq!(next_matching_transform(&kinds, &after, TransformType::ScaleR), Some(2));
    assert_eq!(next_matching_transform(&kinds, &after, TransformType::ScaleY), None);
}
