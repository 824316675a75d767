//! Host telemetry read from kernel text interfaces: CPU topology from the CPU
//! descriptor text, temperature sensors from the sysfs trees, and network
//! traffic counters corrected for 32-bit wraparound between polls.
pub mod cpu_fields;
pub mod cpu_info;
pub mod cpu_topology;
pub mod descriptor;
pub mod error;
pub mod filesystem;
pub mod net_table;
pub mod network;
pub mod process;
pub mod sensors;
pub mod text;

pub use cpu_fields::Decimal;
pub use cpu_info::{parse_single_cpu, CpuInfo};
pub use cpu_topology::CpuTopology;
pub use error::Error;
pub use filesystem::FileSystem;
pub use network::{NetIoCounters, NetIoCountersCollector};
pub use process::{parse_environ, pids, Environ};
pub use sensors::{temperatures, Temperature, TemperatureSensor};
