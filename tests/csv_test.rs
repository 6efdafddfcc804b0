use rcli::zip_record;

fn strings(items: &[&str]) -> Vec<String> {
    items.iter().map(|s| s.to_string()).collect()
}

#[test]
fn test_iter_zip() {
    let headers = strings(&["Name", "Position", "DOB", "Nationality", "Kit Number"]);
    let record = strings(&["Wojciech Szczesny", "Goalkeeper", "Apr 18, 1990 (29)", "Poland", "1"]);
    let pairs = zip_record(&headers, &record);
    println!("{:?}", pairs);
    assert_eq!(pairs.len(), 5);
    assert_eq!(pairs[0], ("Name".to_string(), "Wojciech Szczesny".to_string()));
    assert_eq!(pairs[2], ("DOB".to_string(), "Apr 18, 1990 (29)".to_string()));
    assert_eq!(pairs[4], ("Kit Number".to_string(), "1".to_string()));
}

#[test]
fn zip_stops_at_the_shorter_side() {
    let headers = strings(&["a", "b", "c"]);
    assert_eq!(zip_record(&headers, &strings(&["1"])), vec![("a".to_string(), "1".to_string())]);
    assert_eq!(zip_record(&strings(&[]), &strings(&["1", "2"])), vec![]);
}
