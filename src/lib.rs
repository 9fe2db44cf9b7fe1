// Distribution of filesystem change notifications by topic prefix: the
// topic codec, the relay between the internal and the public channel, the
// discovery service and the client's side of discovery.
pub mod client;
pub mod codec;
pub mod edn_scan;
pub mod relay;
pub mod topology;
