use shittuber::cache::PathCache;

#[test]
fn empty_cache_holds_nothing() {
    let c: PathCache<u32> = PathCache::new();
    assert_eq!(c.get("assets/letters.png"), None);
    assert_eq!(c.get(""), None);
}

#[test]
fn kept_thing_comes_back_for_its_path_only() {
    let mut c = PathCache::new();
    c.insert("assets/letters.png".to_string(), 7u32);
    c.insert("assets/back.png".to_string(), 9u32);
    assert_eq!(c.get("assets/letters.png"), Some(&7));
    assert_eq!(c.get("assets/back.png"), Some(&9));
    assert_eq!(c.get("assets/letters.pn"), None);
    assert_eq!(c.get("assets/letters.png "), None);
}

#[test]
fn keeping_again_replaces_what_was_kept() {
    let mut c = PathCache::new();
    c.insert("a".to_string(), 1u32);
    c.insert("b".to_string(), 2u32);
    c.insert("a".to_string(), 3u32);
    assert_eq!(c.get("a"), Some(&3));
    assert_eq!(c.get("b"), Some(&2));
}
