use retromount::output::flat_presenter::FlatPresenter;
use retromount::output::present::OutputPresenter;
use retromount::output::presenter_registry::{PresenterFactory, PresenterRegistry};
use retromount::policy::default::{DefaultConflictPolicy, DefaultFormattingPolicy, DefaultNamingPolicy};
use retromount::policy::PolicySet;

struct FlatFactory;

impl PresenterFactory for FlatFactory {
    type Presenter = FlatPresenter;

    fn create(&self) -> FlatPresenter {
        FlatPresenter
    }
}

#[test]
fn presenter_registry_lists_names_in_order_and_replaces_duplicates() {
    let mut registry = PresenterRegistry::new();
    registry.register("opl", FlatFactory);
    registry.register("duckstation", FlatFactory);
    registry.register("opl", FlatFactory);

    assert_eq!(registry.names(), vec!["duckstation", "opl"]);
    assert!(registry.get("missing").is_none());

    let presenter = registry.get("opl").unwrap();
    let policy: PolicySet<DefaultNamingPolicy, DefaultFormattingPolicy, DefaultConflictPolicy> =
        PolicySet::default();
    let plan = presenter.present(&[], &policy);
    assert!(plan.entries.is_empty());
}

#[test]
fn empty_presenter_registry_has_no_names() {
    let registry: PresenterRegistry<FlatFactory> = PresenterRegistry::default();
    assert!(registry.names().is_empty());
}
