use rust_exercises::life::{
    differences_of_words, find_differences, merge_names, split_string, Differences,
};

#[test]
fn test_split_string() {
    let matches;
    let string_to_split = String::from("Hello, World!");

    {
        let delimeter = String::from(", ");
        matches = split_string(&string_to_split, &delimeter);
    }
    println!("Matches can be printed! See: {:?}", matches);

    assert_eq!(split_string(&"", &""), Vec::<&str>::new());
    assert_eq!(
        split_string(&"Hello, World!", &", "),
        vec!["Hello", "World!"]
    );
    assert_eq!(
        split_string(
            &"I this think this that this sentence this is this very this confusing this ",
            &" this "
        ),
        vec!["I", "think", "that", "sentence", "is", "very", "confusing"]
    );
    assert_eq!(
        split_string(&"apple\u{f8ff}\u{fc}\u{e7}\u{e9}banana\u{f8ff}\u{fc}\u{e7}\u{e9}orange", &"\u{f8ff}\u{fc}\u{e7}\u{e9}"),
        vec!["apple", "banana", "orange"]
    );
    assert_eq!(
        split_string(
            &"Ayush;put|a,lot~of`random;delimeters|in|this,sentence",
            &";"
        ),
        vec![
            "Ayush",
            "put|a,lot~of`random",
            "delimeters|in|this,sentence"
        ]
    );
}

#[test]
fn test_find_differences() {
    assert_eq!(
        find_differences(&"", &""),
        Differences {
            only_in_first: Vec::new(),
            only_in_second: Vec::new()
        }
    );
    assert_eq!(
        find_differences(&"pineapple pen", &"apple"),
        Differences {
            only_in_first: vec!["pineapple", "pen"],
            only_in_second: vec!["apple"]
        }
    );
    assert_eq!(
        find_differences(
            &"Sally sold seashells at the seashore",
            &"Seashells seashells at the seashore"
        ),
        Differences {
            only_in_first: vec!["Sally", "sold"],
            only_in_second: vec!["Seashells"]
        }
    );
    assert_eq!(
        find_differences(
            "How much wood could a wood chuck chuck",
            "If a wood chuck could chuck wood"
        ),
        Differences {
            only_in_first: vec!["How", "much"],
            only_in_second: vec!["If"]
        }
    );
    assert_eq!(
        find_differences(
            &"How much ground would a groundhog hog",
            &"If a groundhog could hog ground"
        ),
        Differences {
            only_in_first: vec!["How", "much", "would"],
            only_in_second: vec!["If", "could"]
        }
    );
}

#[test]
fn test_merge_names() {
    assert_eq!(merge_names(&"alex", &"jake"), "aljexake");
    assert_eq!(merge_names(&"steven", &"stephen"), "ststevephenen");
    assert_eq!(merge_names(&"gym", &"rhythm"), "gymrhythm");
    assert_eq!(merge_names(&"walter", &"gibraltor"), "wgaltibreraltor");
    assert_eq!(merge_names(&"baker", &"quaker"), "bqakueraker");
    assert_eq!(merge_names(&"", &""), "");
    assert_eq!(merge_names(&"samesies", &"samesies"), "ssamamesesiieses");
    assert_eq!(merge_names(&"heather", &"meagan"), "hmeeathageran");
    assert_eq!(merge_names(&"panda", &"turtle"), "ptandurtlae");
    assert_eq!(merge_names(&"hot", &"sauce"), "hsotauce");
    assert_eq!(merge_names(&"", &"second"), "second");
    assert_eq!(merge_names(&"first", &""), "first");
}

#[test]
fn split_keeps_a_string_without_the_delimiter_whole() {
    assert_eq!(split_string("abc", "x"), vec!["abc"]);
    assert_eq!(split_string("abc", ""), Vec::<&str>::new());
    assert_eq!(split_string(",,a,,b,,", ","), vec!["a", "b"]);
    assert_eq!(split_string("aaa", "aa"), vec!["a"]);
}

#[test]
fn differences_of_repeated_words() {
    let first = vec!["a", "b", "a", "c"];
    let second = vec!["c", "d"];
    let d = differences_of_words(&first, &second);
    assert_eq!(d.only_in_first, vec!["a", "b", "a"]);
    assert_eq!(d.only_in_second, vec!["d"]);
}

#[test]
fn words_are_split_on_any_white_space() {
    let d = find_differences(" one\ttwo\n three ", "two");
    assert_eq!(d.only_in_first, vec!["one", "three"]);
    assert!(d.only_in_second.is_empty());
}

#[test]
fn merge_takes_vowels_case_blind() {
    assert_eq!(merge_names("Ab", "cE"), "AbcE");
}
