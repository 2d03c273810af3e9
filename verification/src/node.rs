//! Core state of the dataflow driver node.
//!
//! The driver follows dataflow conventions: timer-driven sensor polling and
//! command-driven actuation. This module holds its configuration.

use vstd::prelude::*;
use core::marker::PhantomData;
use crate::transport::Transport;
use crate::types::RobotModel;

verus! {

/// Configuration for the Create driver node.
#[derive(Debug, Clone)]
pub struct CreateNodeConfig {
    /// Serial port path (e.g. `/dev/ttyUSB0`).
    pub port: String,
    /// Robot model.
    pub model: RobotModel,
    /// Sensor packet IDs to poll on each tick.
    pub sensor_ids: Vec<u8>,
}

impl Default for CreateNodeConfig {
    /// Port `/dev/ttyUSB0`, a Create 2, and the packets bumps and wheel
    /// drops (7), wall (8), the four cliff sensors (9–12), voltage (22),
    /// current (23), temperature (24), charge (25) and capacity (26).
    fn default() -> (c: Self)
        ensures
            c.port@ == "/dev/ttyUSB0"@,
            c.model == RobotModel::Create2,
            c.sensor_ids@ == seq![7u8, 8, 9, 10, 11, 12, 22, 23, 24, 25, 26],
    {
        let mut ids: Vec<u8> = Vec::new();
        ids.push(7);
        ids.push(8);
        ids.push(9);
        ids.push(10);
        ids.push(11);
        ids.push(12);
        ids.push(22);
        ids.push(23);
        ids.push(24);
        ids.push(25);
        ids.push(26);
        assert(ids@ =~= seq![7u8, 8, 9, 10, 11, 12, 22, 23, 24, 25, 26]);
        CreateNodeConfig { port: String::from_str("/dev/ttyUSB0"), model: RobotModel::Create2, sensor_ids: ids }
    }
}

/// The Create driver node: its configuration, for a robot reached over `T`.
#[derive(Debug)]
pub struct CreateNode<T: Transport> {
    config: CreateNodeConfig,
    _transport: PhantomData<T>,
}

impl<T: Transport> CreateNode<T> {
    /// The configuration the node was created with.
    pub closed spec fn spec_config(&self) -> CreateNodeConfig {
        self.config
    }

    /// Create a new node with the given configuration.
    pub fn new(config: CreateNodeConfig) -> (n: Self)
        ensures
            n.spec_config() == config,
    {
        CreateNode { config, _transport: PhantomData }
    }

    /// Get the node configuration.
    pub fn config(&self) -> (c: &CreateNodeConfig)
        ensures
            *c == self.spec_config(),
    {
        &self.config
    }
}

} // verus!
