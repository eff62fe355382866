use vault_market::named::{from_str, to_string, NamedEnum};

#[derive(Debug, Clone, Copy, PartialEq, Eq)]
enum TestStatus {
    Active,
    Inactive,
}

impl NamedEnum for TestStatus {
    fn name(&self) -> vstd::seq::Seq<char> {
        unreachable!()
    }

    fn all() -> vstd::seq::Seq<Self> {
        unreachable!()
    }

    fn kind_name() -> vstd::seq::Seq<char> {
        unreachable!()
    }

    fn as_str(&self) -> &'static str {
        match self {
            TestStatus::Active => "active",
            TestStatus::Inactive => "inactive",
        }
    }

    fn variants() -> Vec<Self> {
        vec![TestStatus::Active, TestStatus::Inactive]
    }

    fn kind() -> &'static str {
        "TestStatus"
    }
}

#[test]
fn test_named_enum_as_str() {
    assert_eq!(TestStatus::Active.as_str(), "active");
    assert_eq!(TestStatus::Inactive.as_str(), "inactive");
}

#[test]
fn test_named_enum_from_str() {
    assert_eq!(from_str::<TestStatus>("active").ok(), Some(TestStatus::Active));
    assert_eq!(from_str::<TestStatus>("inactive").ok(), Some(TestStatus::Inactive));
    assert!(from_str::<TestStatus>("unknown").is_err());
}

#[test]
fn test_named_enum_display() {
    assert_eq!(to_string(&TestStatus::Active), "active");
    assert_eq!(to_string(&TestStatus::Inactive), "inactive");
}

#[test]
fn unknown_name_is_reported_with_the_type() {
    assert_eq!(
        from_str::<TestStatus>("unknown"),
        Err("Unknown TestStatus: unknown".to_string())
    );
}
