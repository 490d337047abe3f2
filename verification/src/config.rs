//! Configuration of the block manager and of its remote storage.

use vstd::prelude::*;

use crate::text::{self, clone_text, decimal_string, parse_number, replace_text};

verus! {

/// Names a NIXL agent.
#[derive(Debug)]
pub struct NixlAgent {
    pub name: String,
}

impl Clone for NixlAgent {
    fn clone(&self) -> (copy: Self)
        ensures
            copy == *self,
    {
        NixlAgent { name: self.name.clone() }
    }
}

/// Whether NIXL is used, and with which agent.
#[derive(Debug)]
pub enum NixlOptions {
    /// NIXL is used with a new agent.
    Enabled,
    /// NIXL is used with the given agent.
    EnabledWithAgent(NixlAgent),
    /// NIXL is not used.
    Disabled,
}

impl Clone for NixlOptions {
    fn clone(&self) -> (copy: Self)
        ensures
            copy == *self,
    {
        match self {
            NixlOptions::Enabled => NixlOptions::Enabled,
            NixlOptions::EnabledWithAgent(agent) => NixlOptions::EnabledWithAgent(agent.clone()),
            NixlOptions::Disabled => NixlOptions::Disabled,
        }
    }
}

/// Why a configuration could not be built.
#[derive(Debug)]
pub enum BuilderError {
    /// A field without a default was not set.
    UninitializedField(&'static str),
    /// The fields contradict each other.
    ValidationError(String),
}

/// Runtime part of the block manager's configuration.
#[derive(Debug)]
pub struct KvManagerRuntimeConfig {
    pub worker_id: u64,
    pub nixl: NixlOptions,
}

impl Clone for KvManagerRuntimeConfig {
    fn clone(&self) -> (copy: Self)
        ensures
            copy == *self,
    {
        KvManagerRuntimeConfig { worker_id: self.worker_id, nixl: self.nixl.clone() }
    }
}

/// Builds a [`KvManagerRuntimeConfig`].
#[derive(Debug)]
pub struct KvManagerRuntimeConfigBuilder {
    pub worker_id: Option<u64>,
    pub nixl: Option<NixlOptions>,
}

impl KvManagerRuntimeConfig {
    /// A builder with nothing set.
    pub fn builder() -> (builder: KvManagerRuntimeConfigBuilder)
        ensures
            builder == (KvManagerRuntimeConfigBuilder { worker_id: None, nixl: None }),
    {
        KvManagerRuntimeConfigBuilder { worker_id: None, nixl: None }
    }
}

impl KvManagerRuntimeConfigBuilder {
    /// Sets the worker.
    pub fn worker_id(self, worker_id: u64) -> (builder: Self)
        ensures
            builder == (KvManagerRuntimeConfigBuilder { worker_id: Some(worker_id), ..self }),
    {
        KvManagerRuntimeConfigBuilder { worker_id: Some(worker_id), nixl: self.nixl }
    }

    /// Uses NIXL with a new agent.
    pub fn enable_nixl(self) -> (builder: Self)
        ensures
            builder == (KvManagerRuntimeConfigBuilder { nixl: Some(NixlOptions::Enabled), ..self }),
    {
        KvManagerRuntimeConfigBuilder { worker_id: self.worker_id, nixl: Some(NixlOptions::Enabled) }
    }

    /// Uses NIXL with `agent`.
    pub fn use_nixl_agent(self, agent: NixlAgent) -> (builder: Self)
        ensures
            builder == (KvManagerRuntimeConfigBuilder {
                nixl: Some(NixlOptions::EnabledWithAgent(agent)),
                ..self
            }),
    {
        KvManagerRuntimeConfigBuilder {
            worker_id: self.worker_id,
            nixl: Some(NixlOptions::EnabledWithAgent(agent)),
        }
    }

    /// Does not use NIXL.
    pub fn disable_nixl(self) -> (builder: Self)
        ensures
            builder == (KvManagerRuntimeConfigBuilder {
                nixl: Some(NixlOptions::Disabled),
                ..self
            }),
    {
        KvManagerRuntimeConfigBuilder {
            worker_id: self.worker_id,
            nixl: Some(NixlOptions::Disabled),
        }
    }

    /// The configuration; NIXL is used with a new agent unless something else was set.
    pub fn build(self) -> (built: Result<KvManagerRuntimeConfig, BuilderError>)
        ensures
            match built {
                Ok(config) => self.worker_id == Some(config.worker_id) && config.nixl
                    == match self.nixl {
                    Some(nixl) => nixl,
                    None => NixlOptions::Enabled,
                },
                Err(BuilderError::UninitializedField(field)) => self.worker_id is None && field@
                    == "worker_id"@,
                Err(BuilderError::ValidationError(_)) => false,
            },
    {
        match self.worker_id {
            Some(worker_id) => {
                let nixl: NixlOptions = match self.nixl {
                    Some(nixl) => nixl,
                    None => NixlOptions::Enabled,
                };
                Ok(KvManagerRuntimeConfig { worker_id, nixl })
            },
            None => Err(BuilderError::UninitializedField("worker_id")),
        }
    }
}

/// Shape of the model's KV cache.
#[derive(Debug, Clone, Copy)]
pub struct KvManagerModelConfig {
    pub num_layers: usize,
    pub outer_dim: usize,
    pub page_size: usize,
    pub inner_dim: usize,
    pub dtype_width_bytes: usize,
}

/// Builds a [`KvManagerModelConfig`].
#[derive(Debug, Clone, Copy)]
pub struct KvManagerModelConfigBuilder {
    pub num_layers: Option<usize>,
    pub outer_dim: Option<usize>,
    pub page_size: Option<usize>,
    pub inner_dim: Option<usize>,
    pub dtype_width_bytes: Option<usize>,
}

impl KvManagerModelConfig {
    /// A builder with nothing set.
    pub fn builder() -> (builder: KvManagerModelConfigBuilder)
        ensures
            builder == (KvManagerModelConfigBuilder {
                num_layers: None,
                outer_dim: None,
                page_size: None,
                inner_dim: None,
                dtype_width_bytes: None,
            }),
    {
        KvManagerModelConfigBuilder {
            num_layers: None,
            outer_dim: None,
            page_size: None,
            inner_dim: None,
            dtype_width_bytes: None,
        }
    }

    /// Whether every dimension is in range: at least one layer, one or two outer dimensions, and
    /// pages and inner dimension of at least one.
    pub fn is_valid(&self) -> (valid: bool)
        ensures
            valid == (self.num_layers >= 1 && 1 <= self.outer_dim <= 2 && self.page_size >= 1
                && self.inner_dim >= 1),
    {
        self.num_layers >= 1 && 1 <= self.outer_dim && self.outer_dim <= 2 && self.page_size >= 1
            && self.inner_dim >= 1
    }
}

impl KvManagerModelConfigBuilder {
    /// Sets the number of layers.
    pub fn num_layers(self, num_layers: usize) -> (builder: Self)
        ensures
            builder == (KvManagerModelConfigBuilder { num_layers: Some(num_layers), ..self }),
    {
        KvManagerModelConfigBuilder { num_layers: Some(num_layers), ..self }
    }

    /// Sets the outer dimension.
    pub fn outer_dim(self, outer_dim: usize) -> (builder: Self)
        ensures
            builder == (KvManagerModelConfigBuilder { outer_dim: Some(outer_dim), ..self }),
    {
        KvManagerModelConfigBuilder { outer_dim: Some(outer_dim), ..self }
    }

    /// Sets the number of tokens in a block.
    pub fn page_size(self, page_size: usize) -> (builder: Self)
        ensures
            builder == (KvManagerModelConfigBuilder { page_size: Some(page_size), ..self }),
    {
        KvManagerModelConfigBuilder { page_size: Some(page_size), ..self }
    }

    /// Sets the inner dimension.
    pub fn inner_dim(self, inner_dim: usize) -> (builder: Self)
        ensures
            builder == (KvManagerModelConfigBuilder { inner_dim: Some(inner_dim), ..self }),
    {
        KvManagerModelConfigBuilder { inner_dim: Some(inner_dim), ..self }
    }

    /// Sets the width of one element.
    pub fn dtype_width_bytes(self, dtype_width_bytes: usize) -> (builder: Self)
        ensures
            builder == (KvManagerModelConfigBuilder {
                dtype_width_bytes: Some(dtype_width_bytes),
                ..self
            }),
    {
        KvManagerModelConfigBuilder { dtype_width_bytes: Some(dtype_width_bytes), ..self }
    }

    /// The configuration; elements are two bytes wide unless something else was set. The first
    /// field that is missing is named.
    pub fn build(self) -> (built: Result<KvManagerModelConfig, BuilderError>)
        ensures
            match built {
                Ok(config) => {
                    &&& self.num_layers == Some(config.num_layers)
                    &&& self.outer_dim == Some(config.outer_dim)
                    &&& self.page_size == Some(config.page_size)
                    &&& self.inner_dim == Some(config.inner_dim)
                    &&& config.dtype_width_bytes == match self.dtype_width_bytes {
                        Some(width) => width,
                        None => 2,
                    }
                },
                Err(BuilderError::UninitializedField(field)) => {
                    ||| self.num_layers is None && field@ == "num_layers"@
                    ||| self.num_layers is Some && self.outer_dim is None && field@ == "outer_dim"@
                    ||| self.num_layers is Some && self.outer_dim is Some && self.page_size is None
                        && field@ == "page_size"@
                    ||| self.num_layers is Some && self.outer_dim is Some && self.page_size is Some
                        && self.inner_dim is None && field@ == "inner_dim"@
                },
                Err(BuilderError::ValidationError(_)) => false,
            },
    {
        let num_layers: usize = match self.num_layers {
            Some(n) => n,
            None => {
                return Err(BuilderError::UninitializedField("num_layers"));
            },
        };
        let outer_dim: usize = match self.outer_dim {
            Some(n) => n,
            None => {
                return Err(BuilderError::UninitializedField("outer_dim"));
            },
        };
        let page_size: usize = match self.page_size {
            Some(n) => n,
            None => {
                return Err(BuilderError::UninitializedField("page_size"));
            },
        };
        let inner_dim: usize = match self.inner_dim {
            Some(n) => n,
            None => {
                return Err(BuilderError::UninitializedField("inner_dim"));
            },
        };
        let dtype_width_bytes: usize = match self.dtype_width_bytes {
            Some(n) => n,
            None => 2,
        };
        Ok(KvManagerModelConfig { num_layers, outer_dim, page_size, inner_dim, dtype_width_bytes })
    }
}

/// How blocks are spread over the workers.
#[derive(Debug, Clone, Copy, PartialEq, Eq, Structural)]
pub enum BlockParallelismStrategy {
    /// Every block is cut into one piece per worker.
    LeaderWorkerSharded,
}

/// How the bytes of a block are laid out.
#[derive(Debug, Clone, Copy, PartialEq, Eq, Structural)]
pub enum LayoutType {
    FullyContiguous,
}

/// Names an allocator of storage.
pub type AllocatorId = u64;

/// Names a filter that picks the blocks to offload.
pub type OffloadFilterId = u64;

/// Names a piece of storage.
pub type StorageId = u64;

/// Layout of one pool. `S` is what stands for a piece of storage.
#[derive(Debug)]
pub struct KvManagerLayoutConfig<S> {
    pub num_blocks: usize,
    pub layout_type: LayoutType,
    pub storage: Option<Vec<S>>,
    pub allocator: Option<AllocatorId>,
    pub logical: Option<BlockParallelismStrategy>,
    pub offload_filter: Option<OffloadFilterId>,
}

/// Builds a [`KvManagerLayoutConfig`]. The outer option says whether a field was set, the inner
/// one what it was set to.
#[derive(Debug)]
pub struct KvManagerLayoutConfigBuilder<S> {
    pub num_blocks: Option<usize>,
    pub layout_type: Option<LayoutType>,
    pub storage: Option<Option<Vec<S>>>,
    pub allocator: Option<Option<AllocatorId>>,
    pub logical: Option<Option<BlockParallelismStrategy>>,
    pub offload_filter: Option<Option<OffloadFilterId>>,
}

impl<S> KvManagerLayoutConfig<S> {
    /// A builder with nothing set.
    pub fn builder() -> (builder: KvManagerLayoutConfigBuilder<S>)
        ensures
            builder == (KvManagerLayoutConfigBuilder::<S> {
                num_blocks: None,
                layout_type: None,
                storage: None,
                allocator: None,
                logical: None,
                offload_filter: None,
            }),
    {
        KvManagerLayoutConfigBuilder {
            num_blocks: None,
            layout_type: None,
            storage: None,
            allocator: None,
            logical: None,
            offload_filter: None,
        }
    }
}

impl<S> KvManagerLayoutConfigBuilder<S> {
    /// The number of sources of storage that were set.
    pub open spec fn sources(&self) -> int {
        (if self.storage is Some {
            1int
        } else {
            0
        }) + (if self.allocator is Some {
            1int
        } else {
            0
        }) + (if self.logical is Some {
            1int
        } else {
            0
        })
    }

    /// Sets the number of blocks.
    pub fn num_blocks(self, num_blocks: usize) -> (builder: Self)
        ensures
            builder == (KvManagerLayoutConfigBuilder::<S> { num_blocks: Some(num_blocks), ..self }),
    {
        KvManagerLayoutConfigBuilder { num_blocks: Some(num_blocks), ..self }
    }

    /// Sets the layout.
    pub fn layout_type(self, layout_type: LayoutType) -> (builder: Self)
        ensures
            builder == (KvManagerLayoutConfigBuilder::<S> {
                layout_type: Some(layout_type),
                ..self
            }),
    {
        KvManagerLayoutConfigBuilder { layout_type: Some(layout_type), ..self }
    }

    /// Takes the blocks from `storage`.
    pub fn storage(self, storage: Option<Vec<S>>) -> (builder: Self)
        ensures
            builder == (KvManagerLayoutConfigBuilder::<S> { storage: Some(storage), ..self }),
    {
        KvManagerLayoutConfigBuilder { storage: Some(storage), ..self }
    }

    /// Takes the blocks from `allocator`.
    pub fn allocator(self, allocator: AllocatorId) -> (builder: Self)
        ensures
            builder == (KvManagerLayoutConfigBuilder::<S> {
                allocator: Some(Some(allocator)),
                ..self
            }),
    {
        KvManagerLayoutConfigBuilder { allocator: Some(Some(allocator)), ..self }
    }

    /// Leaves the blocks to the workers.
    pub fn logical(self, logical: Option<BlockParallelismStrategy>) -> (builder: Self)
        ensures
            builder == (KvManagerLayoutConfigBuilder::<S> { logical: Some(logical), ..self }),
    {
        KvManagerLayoutConfigBuilder { logical: Some(logical), ..self }
    }

    /// Sets the filter that picks the blocks to offload.
    pub fn offload_filter(self, offload_filter: Option<OffloadFilterId>) -> (builder: Self)
        ensures
            builder == (KvManagerLayoutConfigBuilder::<S> {
                offload_filter: Some(offload_filter),
                ..self
            }),
    {
        KvManagerLayoutConfigBuilder { offload_filter: Some(offload_filter), ..self }
    }

    /// Checks that exactly one source of storage was set.
    pub fn validate(&self) -> (valid: Result<(), String>)
        ensures
            match valid {
                Ok(_) => self.sources() == 1,
                Err(message) => {
                    ||| self.sources() == 0 && message@
                        == "Must provide either `storage` or `allocator` or `logical`."@
                    ||| self.sources() > 1 && message@
                        == "Only one selection of either `storage` and `allocator` or `logical`."@
                },
            },
    {
        match (self.storage.is_some(), self.allocator.is_some(), self.logical.is_some()) {
            (true, false, false) | (false, true, false) | (false, false, true) => Ok(()),
            (false, false, false) => Err(
                "Must provide either `storage` or `allocator` or `logical`.".to_string(),
            ),
            _ => Err(
                "Only one selection of either `storage` and `allocator` or `logical`.".to_string(),
            ),
        }
    }

    /// The layout, if exactly one source of storage and the number of blocks were set.
    pub fn build(self) -> (built: Result<KvManagerLayoutConfig<S>, BuilderError>)
        ensures
            match built {
                Ok(config) => {
                    &&& self.sources() == 1
                    &&& self.num_blocks == Some(config.num_blocks)
                    &&& config.layout_type == match self.layout_type {
                        Some(layout_type) => layout_type,
                        None => LayoutType::FullyContiguous,
                    }
                    &&& config.storage == match self.storage {
                        Some(storage) => storage,
                        None => None,
                    }
                    &&& config.allocator == match self.allocator {
                        Some(allocator) => allocator,
                        None => None,
                    }
                    &&& config.logical == match self.logical {
                        Some(logical) => logical,
                        None => None,
                    }
                    &&& config.offload_filter == match self.offload_filter {
                        Some(filter) => filter,
                        None => None,
                    }
                },
                Err(BuilderError::ValidationError(message)) => {
                    ||| self.sources() == 0 && message@
                        == "Must provide either `storage` or `allocator` or `logical`."@
                    ||| self.sources() > 1 && message@
                        == "Only one selection of either `storage` and `allocator` or `logical`."@
                },
                Err(BuilderError::UninitializedField(field)) => self.sources() == 1
                    && self.num_blocks is None && field@ == "num_blocks"@,
            },
    {
        match self.validate() {
            Ok(_) => {},
            Err(message) => {
                return Err(BuilderError::ValidationError(message));
            },
        }
        let num_blocks: usize = match self.num_blocks {
            Some(n) => n,
            None => {
                return Err(BuilderError::UninitializedField("num_blocks"));
            },
        };
        let layout_type: LayoutType = match self.layout_type {
            Some(layout_type) => layout_type,
            None => LayoutType::FullyContiguous,
        };
        let storage: Option<Vec<S>> = match self.storage {
            Some(storage) => storage,
            None => None,
        };
        let allocator: Option<AllocatorId> = match self.allocator {
            Some(allocator) => allocator,
            None => None,
        };
        let logical: Option<BlockParallelismStrategy> = match self.logical {
            Some(logical) => logical,
            None => None,
        };
        let offload_filter: Option<OffloadFilterId> = match self.offload_filter {
            Some(filter) => filter,
            None => None,
        };
        Ok(
            KvManagerLayoutConfig {
                num_blocks,
                layout_type,
                storage,
                allocator,
                logical,
                offload_filter,
            },
        )
    }
}

/// Who publishes cache events.
#[derive(Debug, Clone, Copy, PartialEq, Eq, Structural)]
pub enum EventSource {
    Vllm,
    Trtllm,
    Kvbm,
}

/// Where the event consolidator listens and publishes.
#[derive(Debug)]
pub struct KvEventConsolidatorConfig {
    pub engine_endpoint: String,
    pub output_endpoint: String,
    pub engine_source: EventSource,
}

/// Configuration of the block manager.
#[derive(Debug)]
pub struct KvBlockManagerConfig {
    pub runtime: KvManagerRuntimeConfig,
    pub model: KvManagerModelConfig,
    /// Layout of the device tier.
    pub device_layout: Option<KvManagerLayoutConfig<StorageId>>,
    /// Layout of the host tier.
    pub host_layout: Option<KvManagerLayoutConfig<StorageId>>,
    /// Layout of the disk tier.
    pub disk_layout: Option<KvManagerLayoutConfig<StorageId>>,
    pub consolidator_config: Option<KvEventConsolidatorConfig>,
}

/// Builds a [`KvBlockManagerConfig`].
#[derive(Debug)]
pub struct KvBlockManagerConfigBuilder {
    pub runtime: Option<KvManagerRuntimeConfig>,
    pub model: Option<KvManagerModelConfig>,
    pub device_layout: Option<KvManagerLayoutConfig<StorageId>>,
    pub host_layout: Option<KvManagerLayoutConfig<StorageId>>,
    pub disk_layout: Option<KvManagerLayoutConfig<StorageId>>,
    pub consolidator_config: Option<Option<KvEventConsolidatorConfig>>,
}

impl KvBlockManagerConfig {
    /// A builder with nothing set.
    pub fn builder() -> (builder: KvBlockManagerConfigBuilder)
        ensures
            builder == (KvBlockManagerConfigBuilder {
                runtime: None,
                model: None,
                device_layout: None,
                host_layout: None,
                disk_layout: None,
                consolidator_config: None,
            }),
    {
        KvBlockManagerConfigBuilder {
            runtime: None,
            model: None,
            device_layout: None,
            host_layout: None,
            disk_layout: None,
            consolidator_config: None,
        }
    }
}

impl KvBlockManagerConfigBuilder {
    /// Sets the runtime part.
    pub fn runtime(self, runtime: KvManagerRuntimeConfig) -> (builder: Self)
        ensures
            builder == (KvBlockManagerConfigBuilder { runtime: Some(runtime), ..self }),
    {
        KvBlockManagerConfigBuilder { runtime: Some(runtime), ..self }
    }

    /// Sets the shape of the model's cache.
    pub fn model(self, model: KvManagerModelConfig) -> (builder: Self)
        ensures
            builder == (KvBlockManagerConfigBuilder { model: Some(model), ..self }),
    {
        KvBlockManagerConfigBuilder { model: Some(model), ..self }
    }

    /// Sets the layout of the device tier.
    pub fn device_layout(self, device_layout: KvManagerLayoutConfig<StorageId>) -> (builder: Self)
        ensures
            builder == (KvBlockManagerConfigBuilder { device_layout: Some(device_layout), ..self }),
    {
        KvBlockManagerConfigBuilder { device_layout: Some(device_layout), ..self }
    }

    /// Sets the layout of the host tier.
    pub fn host_layout(self, host_layout: KvManagerLayoutConfig<StorageId>) -> (builder: Self)
        ensures
            builder == (KvBlockManagerConfigBuilder { host_layout: Some(host_layout), ..self }),
    {
        KvBlockManagerConfigBuilder { host_layout: Some(host_layout), ..self }
    }

    /// Sets the layout of the disk tier.
    pub fn disk_layout(self, disk_layout: KvManagerLayoutConfig<StorageId>) -> (builder: Self)
        ensures
            builder == (KvBlockManagerConfigBuilder { disk_layout: Some(disk_layout), ..self }),
    {
        KvBlockManagerConfigBuilder { disk_layout: Some(disk_layout), ..self }
    }

    /// Has the events of `engine_source` consolidated. Both engines need an output endpoint, and
    /// the block manager itself is no engine.
    pub fn consolidator_config(
        self,
        engine_endpoint: String,
        output_endpoint: Option<String>,
        engine_source: EventSource,
    ) -> (builder: Self)
        requires
            output_endpoint is Some,
            engine_source != EventSource::Kvbm,
        ensures
            builder == (KvBlockManagerConfigBuilder {
                consolidator_config: Some(
                    Some(
                        KvEventConsolidatorConfig {
                            engine_endpoint,
                            output_endpoint: output_endpoint->0,
                            engine_source,
                        },
                    ),
                ),
                ..self
            }),
    {
        let output_endpoint: String = output_endpoint.unwrap();
        KvBlockManagerConfigBuilder {
            consolidator_config: Some(
                Some(
                    KvEventConsolidatorConfig { engine_endpoint, output_endpoint, engine_source },
                ),
            ),
            ..self
        }
    }

    /// The configuration; a tier without a layout is not used. The first part that is missing is
    /// named.
    pub fn build(self) -> (built: Result<KvBlockManagerConfig, BuilderError>)
        ensures
            match built {
                Ok(config) => {
                    &&& self.runtime == Some(config.runtime)
                    &&& self.model == Some(config.model)
                    &&& config.device_layout == self.device_layout
                    &&& config.host_layout == self.host_layout
                    &&& config.disk_layout == self.disk_layout
                    &&& config.consolidator_config == match self.consolidator_config {
                        Some(consolidator) => consolidator,
                        None => None,
                    }
                },
                Err(BuilderError::UninitializedField(field)) => {
                    ||| self.runtime is None && field@ == "runtime"@
                    ||| self.runtime is Some && self.model is None && field@ == "model"@
                },
                Err(BuilderError::ValidationError(_)) => false,
            },
    {
        let runtime: KvManagerRuntimeConfig = match self.runtime {
            Some(runtime) => runtime,
            None => {
                return Err(BuilderError::UninitializedField("runtime"));
            },
        };
        let model: KvManagerModelConfig = match self.model {
            Some(model) => model,
            None => {
                return Err(BuilderError::UninitializedField("model"));
            },
        };
        let consolidator_config: Option<KvEventConsolidatorConfig> =
            match self.consolidator_config {
            Some(consolidator) => consolidator,
            None => None,
        };
        Ok(
            KvBlockManagerConfig {
                runtime,
                model,
                device_layout: self.device_layout,
                host_layout: self.host_layout,
                disk_layout: self.disk_layout,
                consolidator_config,
            },
        )
    }
}

/// Whether a setting holds a number greater than zero.
pub open spec fn is_positive(setting: Option<String>) -> bool {
    match setting {
        Some(value) => text::parsed_number(value@) is Some && text::parsed_number(value@)->0 > 0,
        None => false,
    }
}

fn is_positive_exec(setting: &Option<String>) -> (positive: bool)
    ensures
        positive == is_positive(*setting),
{
    match setting {
        Some(value) => match parse_number(value.as_str()) {
            Some(n) => n > 0,
            None => false,
        },
        None => false,
    }
}

/// Whether device blocks go straight to disk: the disk tier is configured and the host tier is
/// not. The settings are the texts of the cache size and of the number of blocks of either tier;
/// a setting that is absent, zero or no number counts as not configured.
pub fn should_bypass_cpu_cache(
    cpu_cache_gb: &Option<String>,
    cpu_cache_override: &Option<String>,
    disk_cache_gb: &Option<String>,
    disk_cache_override: &Option<String>,
) -> (bypass: bool)
    ensures
        bypass == ((is_positive(*disk_cache_gb) || is_positive(*disk_cache_override)) && !(
        is_positive(*cpu_cache_gb) || is_positive(*cpu_cache_override))),
{
    let cpu_cache_set: bool = is_positive_exec(cpu_cache_gb) || is_positive_exec(
        cpu_cache_override,
    );
    let disk_cache_set: bool = is_positive_exec(disk_cache_gb) || is_positive_exec(
        disk_cache_override,
    );
    disk_cache_set && !cpu_cache_set
}

/// The process-wide switch of the host tier lookup: what was decided, and whether it was decided
/// at run time.
#[derive(Debug)]
pub struct CpuCacheLookup {
    disabled: Option<bool>,
    dirty: bool,
}

impl CpuCacheLookup {
    /// Whether the lookup is off, where that was decided.
    pub closed spec fn decided(&self) -> Option<bool> {
        self.disabled
    }

    /// Whether it was decided at run time.
    pub closed spec fn is_dirty(&self) -> bool {
        self.dirty
    }

    /// Nothing is decided yet.
    pub fn new() -> (lookup: Self)
        ensures
            lookup.decided() is None,
            !lookup.is_dirty(),
    {
        CpuCacheLookup { disabled: None, dirty: false }
    }
}

/// Whether the host tier lookup is off. The first call decides by the environment's `setting`,
/// unless [`set_cpu_cache_lookup_disabled`] came first; the decision then stays.
pub fn cpu_cache_lookup_disabled(lookup: &mut CpuCacheLookup, setting: Option<bool>) -> (disabled:
    bool)
    ensures
        disabled == match old(lookup).decided() {
            Some(disabled) => disabled,
            None => setting == Some(true),
        },
        final(lookup).decided() == Some(disabled),
        final(lookup).is_dirty() == old(lookup).is_dirty(),
{
    match lookup.disabled {
        Some(disabled) => disabled,
        None => {
            let disabled: bool = match setting {
                Some(disabled) => disabled,
                None => false,
            };
            lookup.disabled = Some(disabled);
            disabled
        },
    }
}

/// Switches the host tier lookup at run time.
pub fn set_cpu_cache_lookup_disabled(lookup: &mut CpuCacheLookup, disabled: bool)
    ensures
        final(lookup).decided() == Some(disabled),
        final(lookup).is_dirty(),
{
    lookup.disabled = Some(disabled);
    lookup.dirty = true;
}

/// Whether the host tier lookup was switched at run time.
pub fn cpu_cache_lookup_dirty(lookup: &CpuCacheLookup) -> (dirty: bool)
    ensures
        dirty == lookup.is_dirty(),
{
    lookup.dirty
}

/// Whether lookups have to skip the host tier: only in development mode, and only where the
/// lookup is off. Outside development mode nothing is decided.
pub fn should_disable_cpu_cache_lookup(
    lookup: &mut CpuCacheLookup,
    dev_mode: Option<bool>,
    setting: Option<bool>,
) -> (disable: bool)
    ensures
        if dev_mode == Some(true) {
            &&& disable == match old(lookup).decided() {
                Some(disabled) => disabled,
                None => setting == Some(true),
            }
            &&& final(lookup).decided() == Some(disable)
            &&& final(lookup).is_dirty() == old(lookup).is_dirty()
        } else {
            !disable && *final(lookup) == *old(lookup)
        },
{
    match dev_mode {
        Some(true) => cpu_cache_lookup_disabled(lookup, setting),
        _ => false,
    }
}

/// Selects the backend of a remote disk transfer, one bit per direction.
pub type DiskTransferFlags = u8;

/// Offloads use GPU-direct storage.
pub const DISK_FLAG_GDS_WRITE: DiskTransferFlags = 1;

/// Onboards use GPU-direct storage where it is available.
pub const DISK_FLAG_GDS_READ: DiskTransferFlags = 2;

/// Both directions use GPU-direct storage.
pub const DISK_FLAGS_GDS_BOTH: DiskTransferFlags = 3;

/// Both directions use the file system.
pub const DISK_FLAGS_POSIX_BOTH: DiskTransferFlags = 0;

/// Offloads use the file system, onboards GPU-direct storage.
pub const DISK_FLAGS_GDS_READS_ONLY: DiskTransferFlags = 2;

/// The flag sets are made of the two direction flags.
pub proof fn disk_flags_combine()
    ensures
        DISK_FLAGS_GDS_BOTH == DISK_FLAG_GDS_WRITE | DISK_FLAG_GDS_READ,
        DISK_FLAGS_GDS_READS_ONLY == DISK_FLAG_GDS_READ,
        DISK_FLAGS_GDS_READS_ONLY & DISK_FLAG_GDS_WRITE == 0,
        DISK_FLAGS_POSIX_BOTH & DISK_FLAG_GDS_WRITE == 0,
        DISK_FLAGS_POSIX_BOTH & DISK_FLAG_GDS_READ == 0,
{
    assert(3u8 == 1u8 | 2u8) by (bit_vector);
    assert(2u8 & 1u8 == 0 && 0u8 & 1u8 == 0 && 0u8 & 2u8 == 0) by (bit_vector);
}

/// Where the remote tier keeps its blocks.
#[derive(Debug)]
pub enum RemoteStorageConfig {
    /// An object store. The bucket template may hold `{worker_id}`, which is filled in per rank
    /// when a block is transferred or registered, and not before.
    Object {
        bucket_template: Option<String>,
        endpoint: Option<String>,
        region: Option<String>,
        access_key: Option<String>,
        secret_key: Option<String>,
        session_token: Option<String>,
        scheme: Option<String>,
        use_virtual_addressing: Option<bool>,
        req_checksum: Option<String>,
        ca_bundle: Option<String>,
    },
    /// A directory on a shared disk.
    Disk { base_path: String, transfer_flags: DiskTransferFlags },
}

impl Clone for RemoteStorageConfig {
    fn clone(&self) -> (copy: Self)
        ensures
            copy == *self,
    {
        match self {
            RemoteStorageConfig::Object {
                bucket_template,
                endpoint,
                region,
                access_key,
                secret_key,
                session_token,
                scheme,
                use_virtual_addressing,
                req_checksum,
                ca_bundle,
            } => RemoteStorageConfig::Object {
                bucket_template: clone_text(bucket_template),
                endpoint: clone_text(endpoint),
                region: clone_text(region),
                access_key: clone_text(access_key),
                secret_key: clone_text(secret_key),
                session_token: clone_text(session_token),
                scheme: clone_text(scheme),
                use_virtual_addressing: *use_virtual_addressing,
                req_checksum: clone_text(req_checksum),
                ca_bundle: clone_text(ca_bundle),
            },
            RemoteStorageConfig::Disk { base_path, transfer_flags } => RemoteStorageConfig::Disk {
                base_path: base_path.clone(),
                transfer_flags: *transfer_flags,
            },
        }
    }
}

/// `template` with the rank filled in.
pub open spec fn fill_worker_id(template: Seq<char>, worker_id: usize) -> Seq<char> {
    text::replace_all(template, "{worker_id}"@, text::decimal(worker_id as nat))
}

/// Fills the rank into a template.
pub fn fill_worker_id_exec(template: &str, worker_id: usize) -> (filled: String)
    ensures
        filled@ == fill_worker_id(template@, worker_id),
{
    let id: String = decimal_string(worker_id as u64);
    replace_text(template, "{worker_id}", id.as_str())
}

impl RemoteStorageConfig {
    /// An object store with nothing configured but what the arguments say.
    pub open spec fn plain_object(
        bucket: Option<String>,
        endpoint: Option<String>,
        region: Option<String>,
    ) -> RemoteStorageConfig {
        RemoteStorageConfig::Object {
            bucket_template: bucket,
            endpoint,
            region,
            access_key: None,
            secret_key: None,
            session_token: None,
            scheme: None,
            use_virtual_addressing: None,
            req_checksum: None,
            ca_bundle: None,
        }
    }

    /// The bucket template of an object store.
    pub open spec fn bucket_template_spec(&self) -> Option<Seq<char>> {
        match self {
            RemoteStorageConfig::Object { bucket_template, .. } => text::text_view(
                *bucket_template,
            ),
            RemoteStorageConfig::Disk { .. } => None,
        }
    }

    /// The bucket of a rank.
    pub open spec fn bucket_of(&self, worker_id: usize) -> Option<Seq<char>> {
        match self.bucket_template_spec() {
            Some(template) => Some(fill_worker_id(template, worker_id)),
            None => None,
        }
    }

    /// An object store that keeps its blocks in `bucket`.
    pub fn object(bucket: &str) -> (config: Self)
        ensures
            exists|name: String| #[trigger]
                name@ == bucket@ && config == RemoteStorageConfig::plain_object(
                    Some(name),
                    None,
                    None,
                ),
    {
        let name: String = bucket.to_owned();
        RemoteStorageConfig::object_with_options(Some(name), None, None)
    }

    /// An object store at `endpoint` in `region`.
    pub fn object_with_options(
        bucket: Option<String>,
        endpoint: Option<String>,
        region: Option<String>,
    ) -> (config: Self)
        ensures
            config == RemoteStorageConfig::plain_object(bucket, endpoint, region),
    {
        RemoteStorageConfig::Object {
            bucket_template: bucket,
            endpoint,
            region,
            access_key: None,
            secret_key: None,
            session_token: None,
            scheme: None,
            use_virtual_addressing: None,
            req_checksum: None,
            ca_bundle: None,
        }
    }

    /// The bucket of a rank: the template with the rank filled in.
    pub fn resolve_bucket(&self, worker_id: usize) -> (bucket: Option<String>)
        ensures
            text::text_view(bucket) == self.bucket_of(worker_id),
    {
        match self {
            RemoteStorageConfig::Object { bucket_template, .. } => match bucket_template {
                Some(template) => Some(fill_worker_id_exec(template.as_str(), worker_id)),
                None => None,
            },
            RemoteStorageConfig::Disk { .. } => None,
        }
    }

    /// A directory on a shared disk.
    pub fn disk(base_path: &str, transfer_flags: DiskTransferFlags) -> (config: Self)
        ensures
            config matches RemoteStorageConfig::Disk { base_path: path, transfer_flags: flags }
                && path@ == base_path@ && flags == transfer_flags,
    {
        RemoteStorageConfig::Disk { base_path: base_path.to_owned(), transfer_flags }
    }
}

/// Names the channel on which finished NIXL transfers are announced.
#[derive(Debug, Clone, Copy, PartialEq, Eq, Structural)]
pub enum NixlNotificationSender {
    /// A task polls the status of every transfer.
    Polling(u64),
    /// The agent reports finished transfers by itself.
    Events(u64),
}

/// Why a transfer could not be registered for notification.
#[derive(Debug, Clone, Copy, PartialEq, Eq, Structural)]
pub enum RegistrationError {
    HandlerNotAvailable,
    ChannelUnavailable,
}

/// What every transfer of a process shares.
#[derive(Debug)]
pub struct TransferContext {
    pub nixl_agent: Option<NixlAgent>,
}

impl Clone for TransferContext {
    fn clone(&self) -> (copy: Self)
        ensures
            copy == *self,
    {
        let nixl_agent: Option<NixlAgent> = match &self.nixl_agent {
            Some(agent) => Some(agent.clone()),
            None => None,
        };
        TransferContext { nixl_agent }
    }
}

/// What every remote transfer of a process shares.
#[derive(Debug)]
pub struct RemoteTransferContext {
    base: TransferContext,
    config: RemoteStorageConfig,
    worker_id: u64,
    world_size: usize,
    tx_notifications: Option<NixlNotificationSender>,
}

/// The parts of a [`RemoteTransferContext`].
pub struct RemoteContextParts {
    pub base: TransferContext,
    pub config: RemoteStorageConfig,
    pub worker_id: u64,
    pub world_size: usize,
    pub tx_notifications: Option<NixlNotificationSender>,
}

impl View for RemoteTransferContext {
    type V = RemoteContextParts;

    closed spec fn view(&self) -> RemoteContextParts {
        RemoteContextParts {
            base: self.base,
            config: self.config,
            worker_id: self.worker_id,
            world_size: self.world_size,
            tx_notifications: self.tx_notifications,
        }
    }
}

impl Clone for RemoteTransferContext {
    fn clone(&self) -> (copy: Self)
        ensures
            copy == *self,
    {
        RemoteTransferContext {
            base: self.base.clone(),
            config: self.config.clone(),
            worker_id: self.worker_id,
            world_size: self.world_size,
            tx_notifications: self.tx_notifications,
        }
    }
}

/// Remote storage together with the rank that uses it.
#[derive(Debug)]
pub struct RemoteContextConfig {
    pub remote_storage_config: RemoteStorageConfig,
    pub worker_id: u64,
}

impl Clone for RemoteContextConfig {
    fn clone(&self) -> (copy: Self)
        ensures
            copy == *self,
    {
        RemoteContextConfig {
            remote_storage_config: self.remote_storage_config.clone(),
            worker_id: self.worker_id,
        }
    }
}

impl RemoteContextParts {
    /// The context of the only rank, with notifications on `tx`.
    pub open spec fn single(
        base: TransferContext,
        config: RemoteStorageConfig,
        tx: NixlNotificationSender,
    ) -> RemoteContextParts {
        RemoteContextParts {
            base,
            config,
            worker_id: 0,
            world_size: 1,
            tx_notifications: Some(tx),
        }
    }
}

impl RemoteTransferContext {
    /// The context of an object store, used by one rank.
    pub fn for_object(
        base: TransferContext,
        bucket_template: Option<String>,
        tx: NixlNotificationSender,
    ) -> (ctx: Self)
        ensures
            ctx@ == RemoteContextParts::single(
                base,
                RemoteStorageConfig::plain_object(bucket_template, None, None),
                tx,
            ),
    {
        let config = RemoteStorageConfig::object_with_options(bucket_template, None, None);
        RemoteTransferContext::with_notification_sender(base, config, tx)
    }

    /// The context of an object store at an endpoint, used by the rank `worker_id`.
    pub fn for_object_with_options(
        base: TransferContext,
        bucket_template: Option<String>,
        endpoint: Option<String>,
        region: Option<String>,
        worker_id: u64,
        tx: NixlNotificationSender,
    ) -> (ctx: Self)
        ensures
            ctx@ == (RemoteContextParts {
                worker_id,
                ..RemoteContextParts::single(
                    base,
                    RemoteStorageConfig::plain_object(bucket_template, endpoint, region),
                    tx,
                )
            }),
    {
        let config = RemoteStorageConfig::object_with_options(bucket_template, endpoint, region);
        RemoteTransferContext {
            base,
            config,
            worker_id,
            world_size: 1,
            tx_notifications: Some(tx),
        }
    }

    /// The context of a shared disk, used by one rank.
    pub fn for_disk(
        base: TransferContext,
        base_path: String,
        transfer_flags: DiskTransferFlags,
        tx: NixlNotificationSender,
    ) -> (ctx: Self)
        ensures
            ctx@ == RemoteContextParts::single(
                base,
                RemoteStorageConfig::Disk { base_path, transfer_flags },
                tx,
            ),
    {
        let config = RemoteStorageConfig::Disk { base_path, transfer_flags };
        RemoteTransferContext::with_notification_sender(base, config, tx)
    }

    /// The context of any remote storage, used by one rank, with a notification channel that was
    /// opened for it.
    pub fn new(
        base: TransferContext,
        config: RemoteStorageConfig,
        tx: NixlNotificationSender,
    ) -> (ctx: Self)
        ensures
            ctx@ == RemoteContextParts::single(base, config, tx),
    {
        RemoteTransferContext::with_notification_sender(base, config, tx)
    }

    /// The context of any remote storage, used by one rank, with an existing notification
    /// channel.
    pub fn with_notification_sender(
        base: TransferContext,
        config: RemoteStorageConfig,
        tx: NixlNotificationSender,
    ) -> (ctx: Self)
        ensures
            ctx@ == RemoteContextParts::single(base, config, tx),
    {
        RemoteTransferContext {
            base,
            config,
            worker_id: 0,
            world_size: 1,
            tx_notifications: Some(tx),
        }
    }

    /// With the rank and the number of ranks.
    pub fn with_topology(self, worker_id: u64, world_size: usize) -> (ctx: Self)
        ensures
            ctx@ == (RemoteContextParts { worker_id, world_size, ..self@ }),
    {
        RemoteTransferContext {
            base: self.base,
            config: self.config,
            worker_id,
            world_size,
            tx_notifications: self.tx_notifications,
        }
    }

    /// What the transfer shares with local transfers.
    pub fn base(&self) -> (base: &TransferContext)
        ensures
            *base == self@.base,
    {
        &self.base
    }

    /// The remote storage.
    pub fn config(&self) -> (config: &RemoteStorageConfig)
        ensures
            *config == self@.config,
    {
        &self.config
    }

    /// The NIXL agent, where there is one.
    pub fn nixl_agent(&self) -> (agent: &Option<NixlAgent>)
        ensures
            *agent == self@.base.nixl_agent,
    {
        &self.base.nixl_agent
    }

    /// The rank.
    pub fn worker_id(&self) -> (worker_id: u64)
        ensures
            worker_id == self@.worker_id,
    {
        self.worker_id
    }

    /// The number of ranks.
    pub fn world_size(&self) -> (world_size: usize)
        ensures
            world_size == self@.world_size,
    {
        self.world_size
    }

    /// The bucket template of an object store.
    pub fn bucket_template(&self) -> (template: Option<&str>)
        ensures
            match template {
                Some(template) => self@.config.bucket_template_spec() == Some(template@),
                None => self@.config.bucket_template_spec() is None,
            },
    {
        match &self.config {
            RemoteStorageConfig::Object { bucket_template, .. } => match bucket_template {
                Some(template) => Some(template.as_str()),
                None => None,
            },
            RemoteStorageConfig::Disk { .. } => None,
        }
    }

    /// The directory of a shared disk.
    pub fn base_path(&self) -> (path: Option<&str>)
        ensures
            match path {
                Some(path) => self@.config is Disk && path@ == self@.config->base_path@,
                None => self@.config is Object,
            },
    {
        match &self.config {
            RemoteStorageConfig::Disk { base_path, .. } => Some(base_path.as_str()),
            RemoteStorageConfig::Object { .. } => None,
        }
    }

    /// The backend selection; GPU-direct storage in both directions where there is no disk.
    pub fn disk_transfer_flags(&self) -> (flags: DiskTransferFlags)
        ensures
            flags == match self@.config {
                RemoteStorageConfig::Disk { transfer_flags, .. } => transfer_flags,
                RemoteStorageConfig::Object { .. } => DISK_FLAGS_GDS_BOTH,
            },
    {
        match &self.config {
            RemoteStorageConfig::Disk { transfer_flags, .. } => *transfer_flags,
            RemoteStorageConfig::Object { .. } => DISK_FLAGS_GDS_BOTH,
        }
    }

    /// Picks the channel on which the end of a transfer is announced. `capacity` is the room
    /// that the channel has left. Without a channel, or without room in it, the transfer cannot
    /// be registered and the caller has to poll.
    pub fn register_nixl_transfer(&self, capacity: usize) -> (registered: Result<
        NixlNotificationSender,
        RegistrationError,
    >)
        ensures
            registered == match self@.tx_notifications {
                None => Err(RegistrationError::HandlerNotAvailable),
                Some(tx) => if capacity == 0 {
                    Err(RegistrationError::ChannelUnavailable)
                } else {
                    Ok(tx)
                },
            },
    {
        match self.tx_notifications {
            None => Err(RegistrationError::HandlerNotAvailable),
            Some(tx) => if capacity == 0 {
                Err(RegistrationError::ChannelUnavailable)
            } else {
                Ok(tx)
            },
        }
    }

    /// Whether finished transfers are announced.
    pub fn has_notification_handler(&self) -> (available: bool)
        ensures
            available == (self@.tx_notifications is Some),
    {
        self.tx_notifications.is_some()
    }
}

} // verus!
