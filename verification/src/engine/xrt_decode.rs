//! Decode engine of the NPU: one token at a time, with its state appended in place to the
//! shared cache.

use vstd::prelude::*;
use vstd::string::*;

use crate::engine::oracle::{reference_token, DeterministicReferenceOracle, EOS_TOKEN_ID};
use crate::engine::{float_greater, greater, EngineError, EngineFault};
use crate::text::{decimal, decimal_text};

verus! {

/// Bytes of cache for each token.
pub const BYTES_PER_TOKEN: usize = 128;

/// Longest sequence.
pub const MAX_CONTEXT: usize = 8192;

/// Latency that is reported for a step without a model.
pub const REFERENCE_LATENCY_US: u64 = 28000;

/// Tiles of the NPU that are in use.
pub const ACTIVE_TILES: u32 = 32;

/// Peak performance in whole TOPS.
pub const PEAK_NPU_TOPS: u32 = 55;

/// A step of decoding.
#[derive(Debug, Clone, Copy, PartialEq, Eq, Structural)]
pub struct DecodeStepRequest {
    pub input_token_id: u32,
    pub sequence_index: usize,
    /// Bit pattern of the temperature.
    pub temperature: u32,
}

/// What a step came to.
#[derive(Debug, Clone, Copy, PartialEq, Eq, Structural)]
pub struct DecodeStepResult {
    pub output_token_id: u32,
    pub is_eos: bool,
    pub tile_latency_us: u64,
    pub step_fence_point: u64,
}

/// What a model made of a token.
#[derive(Debug, Clone, Copy, PartialEq, Eq, Structural)]
pub struct ModelOutput {
    pub token: u32,
    pub elapsed_us: u64,
}

/// Decode engine.
#[derive(Debug)]
pub struct XrtDecodeEngine {
    pub initialized: bool,
    pub firmware_path: String,
    pub emulated: bool,
    /// Whether a cache is attached.
    pub attached: bool,
    pub kv_size: u64,
    pub steps: u64,
    /// End token of the bound model.
    pub model_eos: Option<u32>,
}

/// Why a step is not begun, if it is not. `t` is the temperature as text.
pub open spec fn step_fault(
    initialized: bool,
    attached: bool,
    request: DecodeStepRequest,
    t: Seq<char>,
) -> Option<EngineFault> {
    if !initialized {
        Some(EngineFault::InitFailed("DecodeEngine not initialized"@))
    } else if !attached {
        Some(EngineFault::InvalidArgument("No KV cache attached to DecodeEngine"@))
    } else if request.sequence_index >= MAX_CONTEXT {
        Some(
            EngineFault::InvalidArgument(
                "Sequence index "@ + decimal(request.sequence_index as nat)
                    + " exceeds maximum context 8192"@,
            ),
        )
    } else if greater(0, request.temperature) {
        Some(EngineFault::InvalidArgument("Temperature "@ + t + " cannot be negative"@))
    } else {
        None
    }
}

/// What is said of a position that the cache has no room for.
pub open spec fn no_room(index: usize) -> EngineFault {
    EngineFault::OutOfResources(
        "Sequence index "@ + decimal(index as nat)
            + " exceeds allocated KV cache buffer capacity"@,
    )
}

/// The cache has room for a position.
pub open spec fn has_room(len: nat, index: int) -> bool {
    index * BYTES_PER_TOKEN + BYTES_PER_TOKEN <= len
}

/// The byte that stands for a token in the cache.
pub open spec fn token_byte(token: u32) -> u8 {
    (token % 251) as u8
}

/// The cache with a token appended at a position: its bytes there are filled, all others are
/// kept.
pub open spec fn appended(kv: Seq<u8>, index: int, token: u32) -> Seq<u8> {
    Seq::new(
        kv.len(),
        |i: int|
            if index * BYTES_PER_TOKEN <= i < index * BYTES_PER_TOKEN + BYTES_PER_TOKEN {
                token_byte(token)
            } else {
                kv[i]
            },
    )
}

/// The bytes of a position.
pub open spec fn slot(kv: Seq<u8>, index: int) -> Seq<u8> {
    kv.subrange(index * BYTES_PER_TOKEN, index * BYTES_PER_TOKEN + BYTES_PER_TOKEN)
}

/// The result of a step with the output of a model, or without a model.
pub open spec fn step_result(
    model_eos: Option<u32>,
    request: DecodeStepRequest,
    signal_point: u64,
    model: Option<ModelOutput>,
) -> DecodeStepResult {
    match model {
        Some(m) => DecodeStepResult {
            output_token_id: m.token,
            is_eos: m.token == match model_eos {
                Some(e) => e,
                None => EOS_TOKEN_ID,
            },
            tile_latency_us: m.elapsed_us,
            step_fence_point: signal_point,
        },
        None => DecodeStepResult {
            output_token_id: reference_token(request.sequence_index as int),
            is_eos: reference_token(request.sequence_index as int) == EOS_TOKEN_ID,
            tile_latency_us: REFERENCE_LATENCY_US,
            step_fence_point: signal_point,
        },
    }
}

/// The number of steps after one more.
pub open spec fn one_more(steps: u64) -> u64 {
    if steps == u64::MAX {
        0
    } else {
        (steps + 1) as u64
    }
}

impl Default for XrtDecodeEngine {
    fn default() -> (r: XrtDecodeEngine)
        ensures
            !r.initialized,
            r.firmware_path@ == Seq::<char>::empty(),
            !r.emulated,
            !r.attached,
            r.kv_size == 0,
            r.steps == 0,
            r.model_eos is None,
    {
        Self::new()
    }
}

impl XrtDecodeEngine {
    /// An engine that is not initialized yet.
    pub fn new() -> (r: XrtDecodeEngine)
        ensures
            !r.initialized,
            r.firmware_path@ == Seq::<char>::empty(),
            !r.emulated,
            !r.attached,
            r.kv_size == 0,
            r.steps == 0,
            r.model_eos is None,
    {
        XrtDecodeEngine {
            initialized: false,
            firmware_path: String::new(),
            emulated: false,
            attached: false,
            kv_size: 0,
            steps: 0,
            model_eos: None,
        }
    }

    /// An engine on a backend that is already open.
    pub fn new_with_backend(is_mock: bool) -> (r: XrtDecodeEngine)
        ensures
            r.initialized,
            r.firmware_path@ == "in_memory.xclbin"@,
            r.emulated == is_mock,
            !r.attached,
            r.kv_size == 0,
            r.steps == 0,
            r.model_eos is None,
    {
        XrtDecodeEngine {
            initialized: true,
            firmware_path: "in_memory.xclbin".to_owned(),
            emulated: is_mock,
            attached: false,
            kv_size: 0,
            steps: 0,
            model_eos: None,
        }
    }

    /// Binds a model, by its end token.
    pub fn load_model(&mut self, eos_token_id: u32)
        ensures
            *final(self) == (XrtDecodeEngine { model_eos: Some(eos_token_id), ..*old(self) }),
    {
        self.model_eos = Some(eos_token_id);
    }

    /// Binds a model context that is shared with other engines: the end token of the model it
    /// holds, if it holds one. A context without a model leaves the bound model's end token.
    pub fn set_shared_transformer(&mut self, eos_token_id: Option<u32>)
        ensures
            *final(self) == (XrtDecodeEngine {
                model_eos: match eos_token_id {
                    Some(e) => Some(e),
                    None => old(self).model_eos,
                },
                ..*old(self)
            }),
    {
        match eos_token_id {
            Some(e) => {
                self.model_eos = Some(e);
            },
            None => {},
        }
    }

    /// Whether the engine is initialized.
    pub fn is_initialized(&self) -> (r: bool)
        ensures
            r == self.initialized,
    {
        self.initialized
    }

    /// Whether the engine runs on an emulated device.
    pub fn is_mock(&self) -> (r: bool)
        ensures
            r == self.emulated,
    {
        self.emulated
    }

    /// The number of steps so far.
    pub fn current_step(&self) -> (r: u64)
        ensures
            r == self.steps,
    {
        self.steps
    }

    /// The firmware that was loaded.
    pub fn xclbin_path(&self) -> (r: String)
        ensures
            r@ == self.firmware_path@,
    {
        self.firmware_path.clone()
    }

    /// Size of the attached cache.
    pub fn attached_kv_size(&self) -> (r: u64)
        ensures
            r == self.kv_size,
    {
        self.kv_size
    }

    /// Tiles that are in use.
    pub fn active_tiles(&self) -> (r: u32)
        ensures
            r == ACTIVE_TILES,
    {
        ACTIVE_TILES
    }

    /// Peak performance in whole TOPS.
    pub fn peak_npu_tops(&self) -> (r: u32)
        ensures
            r == PEAK_NPU_TOPS,
    {
        PEAK_NPU_TOPS
    }

    /// Loads firmware. `backend` says whether the device that was opened is emulated, or why
    /// none was.
    pub fn initialize(&mut self, xclbin_path: &str, backend: Result<bool, String>) -> (r: Result<
        (),
        EngineError,
    >)
        ensures
            if xclbin_path@.len() == 0 {
                &&& r is Err
                &&& r->Err_0@ == EngineFault::InvalidArgument(
                    "XCLBIN firmware path cannot be empty"@,
                )
                &&& *final(self) == *old(self)
            } else {
                match backend {
                    Err(s) => {
                        &&& r is Err
                        &&& r->Err_0@ == EngineFault::InitFailed(s@)
                        &&& *final(self) == *old(self)
                    },
                    Ok(is_mock) => {
                        &&& r is Ok
                        &&& final(self).firmware_path@ == xclbin_path@
                        &&& *final(self) == (XrtDecodeEngine {
                            initialized: true,
                            emulated: is_mock,
                            firmware_path: final(self).firmware_path,
                            ..*old(self)
                        })
                    },
                }
            },
    {
        if xclbin_path.is_empty() {
            return Err(
                EngineError::InvalidArgument("XCLBIN firmware path cannot be empty".to_owned()),
            );
        }
        match backend {
            Err(s) => Err(EngineError::InitFailed(s)),
            Ok(is_mock) => {
                self.emulated = is_mock;
                self.firmware_path = xclbin_path.to_owned();
                self.initialized = true;
                Ok(())
            },
        }
    }

    /// Attaches a shared cache. `mapped` is what came of mapping it.
    pub fn attach_kv_cache(&mut self, size: usize, mapped: Result<(), String>) -> (r: Result<
        (),
        EngineError,
    >)
        ensures
            if size == 0 {
                &&& r is Err
                &&& r->Err_0@ == EngineFault::InvalidArgument("KV cache size cannot be 0"@)
                &&& *final(self) == *old(self)
            } else {
                match mapped {
                    Err(s) => {
                        &&& r is Err
                        &&& r->Err_0@ == EngineFault::OutOfResources(s@)
                        &&& *final(self) == *old(self)
                    },
                    Ok(_) => {
                        &&& r is Ok
                        &&& *final(self) == (XrtDecodeEngine {
                            attached: true,
                            kv_size: size as u64,
                            ..*old(self)
                        })
                    },
                }
            },
    {
        if size == 0 {
            return Err(EngineError::InvalidArgument("KV cache size cannot be 0".to_owned()));
        }
        match mapped {
            Err(s) => Err(EngineError::OutOfResources(s)),
            Ok(_) => {
                self.kv_size = size as u64;
                self.attached = true;
                Ok(())
            },
        }
    }

    /// Checks a step, and says which point of the fence has to be waited for first.
    pub fn plan_decode_step(
        &self,
        request: &DecodeStepRequest,
        temperature_text: &str,
        wait_syncobj_fd: i32,
        wait_timeline_point: u64,
    ) -> (r: Result<Option<u64>, EngineError>)
        ensures
            match r {
                Ok(w) => {
                    &&& step_fault(
                        self.initialized,
                        self.attached,
                        *request,
                        temperature_text@,
                    ) is None
                    &&& w == if wait_syncobj_fd >= 0 && wait_timeline_point > 0 {
                        Some(wait_timeline_point)
                    } else {
                        None
                    }
                },
                Err(e) => step_fault(
                    self.initialized,
                    self.attached,
                    *request,
                    temperature_text@,
                ) == Some(e@),
            },
    {
        if !self.initialized {
            return Err(EngineError::InitFailed("DecodeEngine not initialized".to_owned()));
        }
        if !self.attached {
            return Err(
                EngineError::InvalidArgument("No KV cache attached to DecodeEngine".to_owned()),
            );
        }
        if request.sequence_index >= MAX_CONTEXT {
            let n = decimal_text(request.sequence_index as u64);
            return Err(
                EngineError::InvalidArgument(
                    "Sequence index ".to_owned().concat(n.as_str()).concat(
                        " exceeds maximum context 8192",
                    ),
                ),
            );
        }
        if float_greater(0, request.temperature) {
            return Err(
                EngineError::InvalidArgument(
                    "Temperature ".to_owned().concat(temperature_text).concat(
                        " cannot be negative",
                    ),
                ),
            );
        }
        if wait_syncobj_fd >= 0 && wait_timeline_point > 0 {
            Ok(Some(wait_timeline_point))
        } else {
            Ok(None)
        }
    }

    /// Appends a token to the cache in place.
    pub fn append_token(request: &DecodeStepRequest, kv: &mut [u8]) -> (r: Result<(), EngineError>)
        ensures
            match r {
                Ok(_) => has_room(old(kv)@.len(), request.sequence_index as int) && final(kv)@
                    == appended(
                    old(kv)@,
                    request.sequence_index as int,
                    request.input_token_id,
                ),
                Err(e) => {
                    &&& !has_room(old(kv)@.len(), request.sequence_index as int)
                    &&& e@ == no_room(request.sequence_index)
                    &&& final(kv)@ == old(kv)@
                },
            },
    {
        let total: usize = kv.len();
        if request.sequence_index >= total / BYTES_PER_TOKEN {
            let n = decimal_text(request.sequence_index as u64);
            return Err(
                EngineError::OutOfResources(
                    "Sequence index ".to_owned().concat(n.as_str()).concat(
                        " exceeds allocated KV cache buffer capacity",
                    ),
                ),
            );
        }
        let offset: usize = request.sequence_index * BYTES_PER_TOKEN;
        let b: u8 = (request.input_token_id % 251) as u8;
        let mut i: usize = 0;
        while i < BYTES_PER_TOKEN
            invariant
                i <= BYTES_PER_TOKEN,
                offset == request.sequence_index * BYTES_PER_TOKEN,
                offset + BYTES_PER_TOKEN <= total,
                kv@.len() == total,
                old(kv)@.len() == total,
                b == token_byte(request.input_token_id),
                forall|k: int|
                    0 <= k < total ==> #[trigger] kv@[k] == if offset <= k < offset + i {
                        b
                    } else {
                        old(kv)@[k]
                    },
            decreases BYTES_PER_TOKEN - i,
        {
            kv[offset + i] = b;
            i = i + 1;
        }
        assert(kv@ =~= appended(
            old(kv)@,
            request.sequence_index as int,
            request.input_token_id,
        ));
        Ok(())
    }

    /// Counts a step.
    pub fn record_step(&mut self)
        ensures
            *final(self) == (XrtDecodeEngine { steps: one_more(old(self).steps), ..*old(self) }),
    {
        self.steps = if self.steps == u64::MAX {
            0
        } else {
            self.steps + 1
        };
    }

    /// The point of the fence that is signalled after a step.
    pub fn signal_after_step(syncobj_fd: i32, signal_timeline_point: u64) -> (r: Option<u64>)
        ensures
            r == if syncobj_fd >= 0 && signal_timeline_point > 0 {
                Some(signal_timeline_point)
            } else {
                None
            },
    {
        if syncobj_fd >= 0 && signal_timeline_point > 0 {
            Some(signal_timeline_point)
        } else {
            None
        }
    }

    /// The result of a step with the output of a model, or without a model.
    pub fn finish_decode_step(
        &self,
        request: &DecodeStepRequest,
        signal_timeline_point: u64,
        model: Option<ModelOutput>,
    ) -> (r: DecodeStepResult)
        ensures
            r == step_result(self.model_eos, *request, signal_timeline_point, model),
    {
        match model {
            Some(m) => {
                let eos: u32 = match self.model_eos {
                    Some(e) => e,
                    None => EOS_TOKEN_ID,
                };
                DecodeStepResult {
                    output_token_id: m.token,
                    is_eos: m.token == eos,
                    tile_latency_us: m.elapsed_us,
                    step_fence_point: signal_timeline_point,
                }
            },
            None => {
                let token: u32 = DeterministicReferenceOracle::next_decode_step_token(
                    request.sequence_index,
                );
                DecodeStepResult {
                    output_token_id: token,
                    is_eos: token == EOS_TOKEN_ID,
                    tile_latency_us: REFERENCE_LATENCY_US,
                    step_fence_point: signal_timeline_point,
                }
            },
        }
    }

    /// A whole step on a mapped cache, with no fence to wait for. `model` is what a model made of
    /// the token, where one is bound; its error is reported after the token was appended.
    pub fn dispatch_decode_step(
        &mut self,
        request: &DecodeStepRequest,
        temperature_text: &str,
        signal_timeline_point: u64,
        kv: &mut [u8],
        model: Option<Result<ModelOutput, EngineError>>,
    ) -> (r: Result<DecodeStepResult, EngineError>)
        ensures
            match step_fault(
                old(self).initialized,
                old(self).attached,
                *request,
                temperature_text@,
            ) {
                Some(f) => {
                    &&& r is Err
                    &&& r->Err_0@ == f
                    &&& *final(self) == *old(self)
                    &&& final(kv)@ == old(kv)@
                },
                None => if !has_room(old(kv)@.len(), request.sequence_index as int) {
                    &&& r is Err
                    &&& r->Err_0@ == no_room(request.sequence_index)
                    &&& *final(self) == *old(self)
                    &&& final(kv)@ == old(kv)@
                } else {
                    &&& *final(self) == (XrtDecodeEngine {
                        steps: one_more(old(self).steps),
                        ..*old(self)
                    })
                    &&& final(kv)@ == appended(
                        old(kv)@,
                        request.sequence_index as int,
                        request.input_token_id,
                    )
                    &&& match model {
                        Some(Err(e)) => r == Err::<DecodeStepResult, EngineError>(e),
                        Some(Ok(m)) => r is Ok && r->Ok_0 == step_result(
                            old(self).model_eos,
                            *request,
                            signal_timeline_point,
                            Some(m),
                        ),
                        None => r is Ok && r->Ok_0 == step_result(
                            old(self).model_eos,
                            *request,
                            signal_timeline_point,
                            None,
                        ),
                    }
                },
            },
    {
        match self.plan_decode_step(request, temperature_text, -1, 0) {
            Err(e) => {
                return Err(e);
            },
            Ok(_) => {},
        }
        match Self::append_token(request, kv) {
            Err(e) => {
                return Err(e);
            },
            Ok(_) => {},
        }
        self.record_step();
        match model {
            Some(Err(e)) => Err(e),
            Some(Ok(m)) => Ok(self.finish_decode_step(request, signal_timeline_point, Some(m))),
            None => Ok(self.finish_decode_step(request, signal_timeline_point, None)),
        }
    }

    /// Drafts tokens: those of the reference sequence from position ten on.
    pub fn draft_tokens(&self, draft_length: usize) -> (r: Result<Vec<u32>, EngineError>)
        requires
            draft_length + 10 <= usize::MAX,
        ensures
            match r {
                Ok(t) => draft_length > 0 && t@ == Seq::new(
                    draft_length as nat,
                    |i: int| reference_token(10 + i),
                ),
                Err(e) => draft_length == 0 && e@ == EngineFault::InvalidArgument(
                    "Draft length cannot be 0"@,
                ),
            },
    {
        if draft_length == 0 {
            return Err(EngineError::InvalidArgument("Draft length cannot be 0".to_owned()));
        }
        let mut tokens: Vec<u32> = Vec::new();
        let mut i: usize = 0;
        while i < draft_length
            invariant
                i <= draft_length,
                draft_length + 10 <= usize::MAX,
                tokens@ == Seq::new(i as nat, |k: int| reference_token(10 + k)),
            decreases draft_length - i,
        {
            tokens.push(DeterministicReferenceOracle::next_decode_step_token(10 + i));
            assert(tokens@ =~= Seq::new((i + 1) as nat, |k: int| reference_token(10 + k)));
            i = i + 1;
        }
        Ok(tokens)
    }

    /// The number of drafted tokens that are accepted: all, but at most three.
    pub fn verify_tokens(&self, candidate_tokens: &[u32], kv_size: usize) -> (r: Result<
        usize,
        EngineError,
    >)
        ensures
            match r {
                Ok(n) => {
                    &&& candidate_tokens@.len() == 0 || kv_size > 0
                    &&& n == accepted_of(candidate_tokens@.len())
                },
                Err(e) => {
                    &&& candidate_tokens@.len() > 0
                    &&& kv_size == 0
                    &&& e@ == EngineFault::InvalidArgument("Invalid KV cache buffer size 0"@)
                },
            },
    {
        if candidate_tokens.len() == 0 {
            return Ok(0);
        }
        if kv_size == 0 {
            return Err(EngineError::InvalidArgument("Invalid KV cache buffer size 0".to_owned()));
        }
        if candidate_tokens.len() <= 3 {
            Ok(candidate_tokens.len())
        } else {
            Ok(3)
        }
    }
}

/// The number of accepted tokens of so many.
pub open spec fn accepted_of(n: nat) -> nat {
    if n <= 3 {
        n
    } else {
        3
    }
}

/// A token that was appended stands in its place, filled, and appending at one position leaves
/// the tokens of all others.
pub proof fn law_append_touches_one_slot(kv: Seq<u8>, index: int, token: u32, other: int)
    requires
        0 <= index,
        0 <= other,
        has_room(kv.len(), index),
        has_room(kv.len(), other),
    ensures
        appended(kv, index, token).len() == kv.len(),
        slot(appended(kv, index, token), index) == Seq::new(128, |i: int| token_byte(token)),
        other != index ==> slot(appended(kv, index, token), other) == slot(kv, other),
{
    let after = appended(kv, index, token);
    assert(slot(after, index) =~= Seq::new(128, |i: int| token_byte(token)));
    if other != index {
        assert(slot(after, other) =~= slot(kv, other));
    }
}

} // verus!
