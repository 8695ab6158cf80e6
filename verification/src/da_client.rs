//! The data availability client's configuration, as it is written on the
//! wire with every field optional and as the node uses it.

use vstd::prelude::*;
use crate::job_row::copy_text;

verus! {

/// The Avail client's configuration as it is written on the wire.
#[derive(Debug)]
pub struct ProtoAvailConfig {
    pub api_node_url: Option<String>,
    pub bridge_api_url: Option<String>,
    pub seed: Option<String>,
    pub app_id: Option<u32>,
    pub timeout: Option<u64>,
    pub max_retries: Option<u64>,
    pub gas_relay_mode: Option<bool>,
    pub gas_relay_api_url: Option<String>,
    pub gas_relay_api_key: Option<String>,
}

/// The Avail client's configuration as the node uses it.
#[derive(Debug)]
pub struct AvailConfig {
    pub api_node_url: Option<String>,
    pub bridge_api_url: String,
    pub seed: Option<String>,
    pub app_id: Option<u32>,
    pub timeout: u64,
    pub max_retries: u64,
    pub gas_relay_mode: bool,
    pub gas_relay_api_url: Option<String>,
    pub gas_relay_api_key: Option<String>,
}

/// The client that a wire configuration names. `S` is the object
/// store's own configuration, which is carried as it is.
#[derive(Debug)]
pub enum ProtoConfig<S> {
    Avail(ProtoAvailConfig),
    ObjectStore(S),
}

/// A data availability client's configuration on the wire.
#[derive(Debug)]
pub struct DataAvailabilityClient<S> {
    pub config: Option<ProtoConfig<S>>,
}

/// The client that the node talks to.
#[derive(Debug)]
pub enum DAClient<S> {
    Avail(AvailConfig),
    ObjectStore(S),
}

/// A data availability client's configuration.
#[derive(Debug)]
pub struct DAClientConfig<S> {
    pub client: DAClient<S>,
}

/// A field that a wire configuration must have and has not.
#[derive(Clone, Copy, Debug, PartialEq, Eq, Structural, Hash)]
pub enum MissingField {
    Config,
    ApiNodeUrl,
    BridgeApiUrl,
    Seed,
    AppId,
    Timeout,
    MaxRetries,
    GasRelayApiUrl,
    GasRelayApiKey,
}

impl MissingField {
    /// The field's name.
    pub open spec fn name(self) -> Seq<char> {
        match self {
            MissingField::Config => "config"@,
            MissingField::ApiNodeUrl => "api_node_url"@,
            MissingField::BridgeApiUrl => "bridge_api_url"@,
            MissingField::Seed => "seed"@,
            MissingField::AppId => "app_id"@,
            MissingField::Timeout => "timeout"@,
            MissingField::MaxRetries => "max_retries"@,
            MissingField::GasRelayApiUrl => "gas_relay_api_url"@,
            MissingField::GasRelayApiKey => "gas_relay_api_key"@,
        }
    }

    /// The field's name.
    pub fn field_name(&self) -> (name: &'static str)
        ensures
            name@ == self.name(),
    {
        match self {
            MissingField::Config => "config",
            MissingField::ApiNodeUrl => "api_node_url",
            MissingField::BridgeApiUrl => "bridge_api_url",
            MissingField::Seed => "seed",
            MissingField::AppId => "app_id",
            MissingField::Timeout => "timeout",
            MissingField::MaxRetries => "max_retries",
            MissingField::GasRelayApiUrl => "gas_relay_api_url",
            MissingField::GasRelayApiKey => "gas_relay_api_key",
        }
    }
}

/// The wire configuration runs the client through a gas relay.
pub open spec fn relays(conf: ProtoAvailConfig) -> bool {
    conf.gas_relay_mode == Some(true)
}

/// The first field that the wire configuration lacks, in the order in
/// which the fields are read. Without a gas relay the node's url, the
/// seed and the app id are needed; with one, the relay's url and key.
pub open spec fn first_missing(conf: ProtoAvailConfig) -> Option<MissingField> {
    if !relays(conf) && conf.api_node_url is None {
        Some(MissingField::ApiNodeUrl)
    } else if conf.bridge_api_url is None {
        Some(MissingField::BridgeApiUrl)
    } else if !relays(conf) && conf.seed is None {
        Some(MissingField::Seed)
    } else if !relays(conf) && conf.app_id is None {
        Some(MissingField::AppId)
    } else if conf.timeout is None {
        Some(MissingField::Timeout)
    } else if conf.max_retries is None {
        Some(MissingField::MaxRetries)
    } else if relays(conf) && conf.gas_relay_api_url is None {
        Some(MissingField::GasRelayApiUrl)
    } else if relays(conf) && conf.gas_relay_api_key is None {
        Some(MissingField::GasRelayApiKey)
    } else {
        None
    }
}

/// The configuration that a complete wire configuration stands for:
/// the fields of the mode it is in, and none of the other mode.
pub open spec fn avail_config_of(conf: ProtoAvailConfig) -> AvailConfig {
    AvailConfig {
        api_node_url: if relays(conf) {
            None
        } else {
            conf.api_node_url
        },
        bridge_api_url: conf.bridge_api_url.unwrap(),
        seed: if relays(conf) {
            None
        } else {
            conf.seed
        },
        app_id: if relays(conf) {
            None
        } else {
            conf.app_id
        },
        timeout: conf.timeout.unwrap(),
        max_retries: conf.max_retries.unwrap(),
        gas_relay_mode: relays(conf),
        gas_relay_api_url: if relays(conf) {
            conf.gas_relay_api_url
        } else {
            None
        },
        gas_relay_api_key: if relays(conf) {
            conf.gas_relay_api_key
        } else {
            None
        },
    }
}

/// What reading a wire configuration of the Avail client gives.
pub open spec fn read_avail(conf: ProtoAvailConfig) -> Result<AvailConfig, MissingField> {
    match first_missing(conf) {
        Some(field) => Err(field),
        None => Ok(avail_config_of(conf)),
    }
}

/// The wire configuration that is written for a configuration.
pub open spec fn build_avail(config: AvailConfig) -> ProtoAvailConfig {
    ProtoAvailConfig {
        api_node_url: config.api_node_url,
        bridge_api_url: Some(config.bridge_api_url),
        seed: config.seed,
        app_id: config.app_id,
        timeout: Some(config.timeout),
        max_retries: Some(config.max_retries),
        gas_relay_mode: Some(config.gas_relay_mode),
        gas_relay_api_url: config.gas_relay_api_url,
        gas_relay_api_key: config.gas_relay_api_key,
    }
}

/// The configuration has the fields of the mode it is in and none of
/// the other mode.
pub open spec fn fits_its_mode(config: AvailConfig) -> bool {
    if config.gas_relay_mode {
        &&& config.api_node_url is None
        &&& config.seed is None
        &&& config.app_id is None
        &&& config.gas_relay_api_url is Some
        &&& config.gas_relay_api_key is Some
    } else {
        &&& config.api_node_url is Some
        &&& config.seed is Some
        &&& config.app_id is Some
        &&& config.gas_relay_api_url is None
        &&& config.gas_relay_api_key is None
    }
}

/// Reading what was written for a configuration gives the configuration
/// back, if it fits its mode; and whatever reading gives fits its mode.
pub proof fn law_read_inverts_build(config: AvailConfig, conf: ProtoAvailConfig)
    ensures
        fits_its_mode(config) ==> read_avail(build_avail(config)) == Ok::<AvailConfig, MissingField>(
            config,
        ),
        read_avail(conf) matches Ok(read) ==> fits_its_mode(read),
{
}

/// The value of a field that must be there.
pub fn required<T>(field: &Option<T>, name: MissingField) -> (value: Result<&T, MissingField>)
    ensures
        match *field {
            Some(v) => value == Ok::<&T, MissingField>(&v),
            None => value == Err::<&T, MissingField>(name),
        },
{
    match field {
        Some(v) => Ok(v),
        None => Err(name),
    }
}

impl ProtoAvailConfig {
    /// Reads the configuration of the Avail client. The first field that
    /// is needed and missing is reported.
    pub fn read(&self) -> (config: Result<AvailConfig, MissingField>)
        ensures
            config == read_avail(*self),
    {
        let relay = match self.gas_relay_mode {
            Some(mode) => mode,
            None => false,
        };
        let api_node_url = if relay {
            None
        } else {
            match required(&self.api_node_url, MissingField::ApiNodeUrl) {
                Ok(url) => Some(url.clone()),
                Err(missing) => {
                    return Err(missing);
                },
            }
        };
        let bridge_api_url = match required(&self.bridge_api_url, MissingField::BridgeApiUrl) {
            Ok(url) => url.clone(),
            Err(missing) => {
                return Err(missing);
            },
        };
        let seed = if relay {
            None
        } else {
            match required(&self.seed, MissingField::Seed) {
                Ok(seed) => Some(seed.clone()),
                Err(missing) => {
                    return Err(missing);
                },
            }
        };
        let app_id = if relay {
            None
        } else {
            match required(&self.app_id, MissingField::AppId) {
                Ok(id) => Some(*id),
                Err(missing) => {
                    return Err(missing);
                },
            }
        };
        let timeout = match required(&self.timeout, MissingField::Timeout) {
            Ok(timeout) => *timeout,
            Err(missing) => {
                return Err(missing);
            },
        };
        let max_retries = match required(&self.max_retries, MissingField::MaxRetries) {
            Ok(retries) => *retries,
            Err(missing) => {
                return Err(missing);
            },
        };
        let gas_relay_api_url = if relay {
            match required(&self.gas_relay_api_url, MissingField::GasRelayApiUrl) {
                Ok(url) => Some(url.clone()),
                Err(missing) => {
                    return Err(missing);
                },
            }
        } else {
            None
        };
        let gas_relay_api_key = if relay {
            match required(&self.gas_relay_api_key, MissingField::GasRelayApiKey) {
                Ok(key) => Some(key.clone()),
                Err(missing) => {
                    return Err(missing);
                },
            }
        } else {
            None
        };
        Ok(
            AvailConfig {
                api_node_url,
                bridge_api_url,
                seed,
                app_id,
                timeout,
                max_retries,
                gas_relay_mode: relay,
                gas_relay_api_url,
                gas_relay_api_key,
            },
        )
    }

    /// Writes the configuration of the Avail client for the wire.
    pub fn build(this: &AvailConfig) -> (conf: ProtoAvailConfig)
        ensures
            conf == build_avail(*this),
    {
        ProtoAvailConfig {
            api_node_url: copy_text(&this.api_node_url),
            bridge_api_url: Some(this.bridge_api_url.clone()),
            seed: copy_text(&this.seed),
            app_id: this.app_id,
            timeout: Some(this.timeout),
            max_retries: Some(this.max_retries),
            gas_relay_mode: Some(this.gas_relay_mode),
            gas_relay_api_url: copy_text(&this.gas_relay_api_url),
            gas_relay_api_key: copy_text(&this.gas_relay_api_key),
        }
    }
}

impl<S> DataAvailabilityClient<S> {
    /// Reads the client's configuration. A wire configuration that names
    /// no client lacks `config`; one for Avail is read field by field;
    /// one for an object store is carried as it is.
    pub fn read(self) -> (config: Result<DAClientConfig<S>, MissingField>)
        ensures
            config == match self.config {
                None => Err::<DAClientConfig<S>, MissingField>(MissingField::Config),
                Some(ProtoConfig::Avail(conf)) => match read_avail(conf) {
                    Ok(avail) => Ok(DAClientConfig { client: DAClient::Avail(avail) }),
                    Err(missing) => Err(missing),
                },
                Some(ProtoConfig::ObjectStore(store)) => Ok(
                    DAClientConfig { client: DAClient::ObjectStore(store) },
                ),
            },
    {
        match self.config {
            None => Err(MissingField::Config),
            Some(ProtoConfig::Avail(conf)) => match conf.read() {
                Ok(avail) => Ok(DAClientConfig { client: DAClient::Avail(avail) }),
                Err(missing) => Err(missing),
            },
            Some(ProtoConfig::ObjectStore(store)) => Ok(
                DAClientConfig { client: DAClient::ObjectStore(store) },
            ),
        }
    }

    /// Writes the client's configuration for the wire.
    pub fn build(this: DAClientConfig<S>) -> (conf: DataAvailabilityClient<S>)
        ensures
            conf.config == Some(
                match this.client {
                    DAClient::Avail(config) => ProtoConfig::Avail(build_avail(config)),
                    DAClient::ObjectStore(store) => ProtoConfig::ObjectStore(store),
                },
            ),
    {
        match this.client {
            DAClient::Avail(config) => DataAvailabilityClient {
                config: Some(ProtoConfig::Avail(ProtoAvailConfig::build(&config))),
            },
            DAClient::ObjectStore(store) => DataAvailabilityClient {
                config: Some(ProtoConfig::ObjectStore(store)),
            },
        }
    }
}

} // verus!
