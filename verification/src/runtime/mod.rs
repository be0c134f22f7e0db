//! The runtime: modules, the topics they subscribe to and the messages they publish.
//!
//! Modules never perform I/O themselves. They register topics with a [`module::TopicCollector`],
//! handle messages synchronously, and queue what they want to publish in a
//! [`module::PublishOutbox`]; the event loop publishes it after the module has returned.

pub mod module;
pub mod publisher;
pub mod registry;
