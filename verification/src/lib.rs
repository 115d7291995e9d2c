pub mod geometry; pub mod window; pub mod task; pub mod slide; pub mod workspace; pub mod text; pub mod actions; pub mod background; pub mod ipc; pub mod effect; pub mod lookup; pub mod desktop; pub mod seat; pub mod manager; pub mod checks; pub mod requests; pub mod events; pub mod frame; pub mod manage; pub mod config; pub mod guards; pub mod interact; pub mod cycle;
