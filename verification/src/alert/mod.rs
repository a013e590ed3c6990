pub mod notifier;
