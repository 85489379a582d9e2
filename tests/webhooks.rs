use embedg_core::webhooks::{choose_webhook, sort_webhooks, CachedWebhook, WebhookCache, WebhookChoice};

fn hook(id: u64, app: Option<u64>) -> CachedWebhook {
    CachedWebhook { id, application_id: app, token: Some(format!("t{}", id)) }
}

fn ids(v: &[CachedWebhook]) -> Vec<u64> {
    v.iter().map(|w| w.id).collect()
}

#[test]
fn fetched_list_is_sorted_and_stored() {
    let mut cache = WebhookCache::new();
    assert!(cache.cached_webhooks_for_channel(10).is_none());
    let stored = cache.insert_fetched_webhooks(10, vec![hook(30, None), hook(10, Some(1)), hook(20, Some(1))]);
    assert_eq!(ids(&stored), vec![10, 20, 30]);
    assert_eq!(ids(&cache.cached_webhooks_for_channel(10).unwrap()), vec![10, 20, 30]);
    cache.delete_webhooks_for_channel(10);
    assert!(cache.cached_webhooks_for_channel(10).is_none());
}

#[test]
fn refetch_replaces_wholesale() {
    let mut cache = WebhookCache::new();
    cache.insert_fetched_webhooks(10, vec![hook(1, None), hook(2, None)]);
    cache.insert_fetched_webhooks(10, vec![hook(3, None)]);
    assert_eq!(ids(&cache.cached_webhooks_for_channel(10).unwrap()), vec![3]);
}

#[test]
fn same_response_in_any_order_picks_same_webhook() {
    let a = sort_webhooks(vec![hook(5, Some(2)), hook(9, Some(1)), hook(7, Some(1))]);
    let b = sort_webhooks(vec![hook(7, Some(1)), hook(5, Some(2)), hook(9, Some(1))]);
    match (choose_webhook(a, 1), choose_webhook(b, 1)) {
        (WebhookChoice::Existing(x), WebhookChoice::Existing(y)) => {
            assert_eq!(x.id, 7);
            assert_eq!(y.id, 7);
            assert_eq!(x.token, Some("t7".to_string()));
        }
        _ => panic!("expected an owned webhook"),
    }
}

#[test]
fn other_applications_webhooks_are_never_picked() {
    let hooks: Vec<CachedWebhook> = (0..3).map(|i| hook(i, Some(2))).collect();
    assert!(matches!(choose_webhook(hooks, 1), WebhookChoice::Create));
    let full: Vec<CachedWebhook> = (0..10).map(|i| hook(i, Some(2))).collect();
    assert!(matches!(choose_webhook(full, 1), WebhookChoice::LimitReached));
    let nine: Vec<CachedWebhook> = (0..9).map(|i| hook(i, None)).collect();
    assert!(matches!(choose_webhook(nine, 1), WebhookChoice::Create));
}

#[test]
fn sort_keeps_equal_ids() {
    let sorted = sort_webhooks(vec![hook(2, None), hook(1, None), hook(2, Some(1))]);
    assert_eq!(ids(&sorted), vec![1, 2, 2]);
}
