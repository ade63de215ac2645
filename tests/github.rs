use journal::github::{LocalFilter, Pr, Repo};

fn set(input: &[&str]) -> Vec<String> {
    input.iter().map(ToString::to_string).collect()
}

#[test]
fn filter_applies_when_author_matches() {
    let filter = LocalFilter {
        authors: set(&["felipe"]),
        labels: set(&[]),
    };

    let mut pr = Pr {
        author: "felipe".into(),
        labels: set(&[]),
        repo: "...".into(),
        title: "...".into(),
        url: "...".into(),
    };

    assert!(filter.apply(&pr));

    pr.author = "anna".into();
    assert!(!filter.apply(&pr))
}

#[test]
fn filter_applies_at_least_one_label_matches() {
    let filter = LocalFilter {
        authors: set(&[]),
        labels: set(&["foo"]),
    };

    let mut pr = Pr {
        author: "...".into(),
        labels: set(&["foo", "bar"]),
        repo: "...".into(),
        title: "...".into(),
        url: "...".into(),
    };

    assert!(filter.apply(&pr));

    pr.labels = set(&["batz"]);
    assert!(!filter.apply(&pr))
}

#[test]
fn filter_author_and_label_need_to_match() {
    let filter = LocalFilter {
        authors: set(&["felipe"]),
        labels: set(&["foo"]),
    };

    let pr = Pr {
        author: "felipe".into(),
        labels: set(&["foo", "bar"]),
        repo: "...".into(),
        title: "...".into(),
        url: "...".into(),
    };

    assert!(filter.apply(&pr));

    let pr = Pr {
        author: "felipe".into(),
        labels: set(&["batz"]),
        repo: "...".into(),
        title: "...".into(),
        url: "...".into(),
    };
    assert!(!filter.apply(&pr));

    let pr = Pr {
        author: "anna".into(),
        labels: set(&["foo"]),
        repo: "...".into(),
        title: "...".into(),
        url: "...".into(),
    };
    assert!(!filter.apply(&pr));

    let pr = Pr {
        author: "anna".into(),
        labels: set(&["batz"]),
        repo: "...".into(),
        title: "...".into(),
        url: "...".into(),
    };
    assert!(!filter.apply(&pr));
}

#[test]
fn empty_filter_accepts_everything() {
    let filter = LocalFilter { authors: vec![], labels: vec![] };
    let pr = Pr {
        author: "anyone".into(),
        labels: vec![],
        repo: "...".into(),
        title: "...".into(),
        url: "...".into(),
    };
    assert!(filter.apply(&pr));
}

#[test]
fn repo_needs_owner_and_name() {
    let repo = Repo::parse("felipesere/journal").unwrap();
    assert_eq!(repo.owner, "felipesere");
    assert_eq!(repo.name, "journal");
    assert_eq!(
        Repo::parse("just-a-name").err().unwrap(),
        "\"just-a-name\" did not have exactly 2 components"
    );
    assert!(Repo::parse("a/b/c").is_err());
}

fn pr(author: &str, labels: &[&str]) -> Pr {
    Pr {
        author: author.into(),
        labels: set(labels),
        repo: "felipesere/journal".into(),
        title: format!("by {}", author),
        url: "...".into(),
    }
}

#[test]
fn keep_returns_the_accepted_pull_requests_in_order() {
    let filter = LocalFilter {
        authors: set(&["felipe", "anna"]),
        labels: set(&["foo"]),
    };

    let kept = filter.keep(vec![
        pr("felipe", &["foo"]),
        pr("bob", &["foo"]),
        pr("anna", &["bar", "foo"]),
        pr("anna", &["bar"]),
    ]);

    let titles: Vec<String> = kept.into_iter().map(|p| p.title).collect();
    assert_eq!(titles, vec!["by felipe".to_string(), "by anna".to_string()]);
}
