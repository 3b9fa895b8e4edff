use std::sync::atomic::{AtomicU64, Ordering};
use std::sync::Arc;

use gearbot::config_store::{effective_config, ConfigStore};
use gearbot::dispatch::{plan_message, DispatchPlan};
use gearbot::guild_config::PermissionOverride;
use gearbot::nodes::CommandGroup;
use gearbot::permissions::{GearBotPermissions, BASIC_GROUP};
use gearbot::registry::{build, CommandDescriptor};

fn counter_registry() -> gearbot::nodes::RootNode {
    let descriptors = vec![CommandDescriptor {
        name: "count".to_owned(),
        aliases: vec!["c".to_owned()],
        group: CommandGroup::Basic,
        bot_permissions: 0,
        command_permission: GearBotPermissions::empty(),
        handler: Some(1),
        children: vec![],
    }];
    build(descriptors).unwrap()
}

#[test]
fn thousand_concurrent_dispatches_increment_exactly_once_each() {
    let runtime = tokio::runtime::Builder::new_multi_thread()
        .worker_threads(8)
        .build()
        .unwrap();
    let root = Arc::new(counter_registry());
    let counter = Arc::new(AtomicU64::new(0));
    let bits = GearBotPermissions::from_bits_truncate(BASIC_GROUP);

    runtime.block_on(async {
        let mut handles = Vec::new();
        for user in 0..1000u64 {
            let root = Arc::clone(&root);
            let counter = Arc::clone(&counter);
            handles.push(tokio::spawn(async move {
                let overrides: Vec<(u64, PermissionOverride)> = vec![];
                match plan_message(&root, "?count one", "?", &overrides, user, bits, None) {
                    DispatchPlan::Execute(handler, args) => {
                        assert_eq!(handler, 1);
                        assert_eq!(args, "one");
                        counter.fetch_add(1, Ordering::SeqCst);
                    }
                    _ => panic!("every dispatch should be allowed"),
                }
            }));
        }
        for handle in handles {
            handle.await.unwrap();
        }
    });

    assert_eq!(counter.load(Ordering::SeqCst), 1000);
}

#[test]
fn concurrent_config_reads_and_writes_stay_consistent() {
    let runtime = tokio::runtime::Builder::new_multi_thread()
        .worker_threads(8)
        .build()
        .unwrap();
    let store = Arc::new(ConfigStore::new());

    runtime.block_on(async {
        let mut handles = Vec::new();
        for guild in 0..100u64 {
            let store = Arc::clone(&store);
            handles.push(tokio::spawn(async move {
                let mut config = effective_config(store.get_config(guild));
                config.prefix = format!("p{}", guild);
                store.set_config(guild, config);
                let read_back = store.get_config(guild).unwrap();
                assert_eq!(read_back.prefix, format!("p{}", guild));
            }));
        }
        for handle in handles {
            handle.await.unwrap();
        }
    });

    for guild in 0..100u64 {
        assert_eq!(store.get_config(guild).unwrap().prefix, format!("p{}", guild));
    }
}
