//! The generation pipeline: resolving a request into the integer inputs of
//! the numeric stages.
use vstd::prelude::*;
use crate::bmp::VAEDecoder;
use crate::model::{
    random_states, random_states_spec, timestep, DDIMScheduler, TextEncoder, UNet,
};
use crate::tokenizer::{tokens_of, SimpleTokenizer};
use crate::types::{GenerationRequest, RequestView};

verus! {

pub const DEFAULT_SIZE: u32 = 512;

pub const DEFAULT_STEPS: u32 = 20;

/// Bit pattern of the 32-bit float 7.5.
pub const DEFAULT_GUIDANCE_BITS: u32 = 0x40F0_0000;

pub const DEFAULT_SEED: u64 = 42;

/// Factor by which the latent grid is smaller than the image on each side.
pub const DOWNSAMPLE: u32 = 8;

/// Why a generation cannot run.
#[derive(Clone, Copy, Debug, PartialEq, Eq, Structural)]
pub enum PipelineError {
    ModelNotInitialized,
    ZeroLatentSize,
    ZeroSteps,
    LatentSizeTooLarge,
}

impl PipelineError {
    pub open spec fn text(&self) -> Seq<char> {
        match self {
            PipelineError::ModelNotInitialized => "Model not initialized"@,
            PipelineError::ZeroLatentSize => "Image dimensions give an empty latent"@,
            PipelineError::ZeroSteps => "Number of inference steps must be positive"@,
            PipelineError::LatentSizeTooLarge => "Image dimensions are too large"@,
        }
    }

    /// The error's message.
    pub fn message(&self) -> (r: String)
        ensures
            r@ == self.text(),
    {
        match self {
            PipelineError::ModelNotInitialized => String::from_str("Model not initialized"),
            PipelineError::ZeroLatentSize => String::from_str("Image dimensions give an empty latent"),
            PipelineError::ZeroSteps => String::from_str("Number of inference steps must be positive"),
            PipelineError::LatentSizeTooLarge => String::from_str("Image dimensions are too large"),
        }
    }
}

pub open spec fn width_of(r: RequestView) -> u32 {
    match r.width {
        Some(v) => v,
        None => DEFAULT_SIZE,
    }
}

pub open spec fn height_of(r: RequestView) -> u32 {
    match r.height {
        Some(v) => v,
        None => DEFAULT_SIZE,
    }
}

pub open spec fn steps_of(r: RequestView) -> u32 {
    match r.num_inference_steps {
        Some(v) => v,
        None => DEFAULT_STEPS,
    }
}

pub open spec fn guidance_bits_of(r: RequestView) -> u32 {
    match r.guidance_scale_bits {
        Some(v) => v,
        None => DEFAULT_GUIDANCE_BITS,
    }
}

pub open spec fn seed_of(r: RequestView) -> u64 {
    match r.seed {
        Some(v) => v,
        None => DEFAULT_SEED,
    }
}

/// Number of latent values: four channels over the downsampled grid.
pub open spec fn latent_size_of(r: RequestView) -> int {
    (width_of(r) / DOWNSAMPLE) as int * (height_of(r) / DOWNSAMPLE) as int * 4
}

/// Text whose embedding is the negative conditioning: the negative prompt,
/// or the empty text.
pub open spec fn negative_text_of(r: RequestView) -> Seq<char> {
    match r.negative_prompt {
        Some(t) => t,
        None => Seq::empty(),
    }
}

/// The error that a request meets, if any, once the model is ready.
pub open spec fn request_error(r: RequestView) -> Option<PipelineError> {
    if latent_size_of(r) == 0 {
        Some(PipelineError::ZeroLatentSize)
    } else if steps_of(r) == 0 {
        Some(PipelineError::ZeroSteps)
    } else if latent_size_of(r) > usize::MAX {
        Some(PipelineError::LatentSizeTooLarge)
    } else {
        None
    }
}

/// The integer inputs of one generation, with every default resolved.
pub struct GenerationPlan {
    pub width: u32,
    pub height: u32,
    pub num_steps: u32,
    pub guidance_scale_bits: u32,
    pub seed: u64,
    pub tokens: Vec<u32>,
    pub negative_tokens: Vec<u32>,
    pub timesteps: Vec<u32>,
    pub latent_states: Vec<u64>,
}

impl GenerationPlan {
    /// The plan is exactly what `r` asks for.
    pub open spec fn plans(&self, r: RequestView) -> bool {
        &&& self.width == width_of(r)
        &&& self.height == height_of(r)
        &&& self.num_steps == steps_of(r)
        &&& self.guidance_scale_bits == guidance_bits_of(r)
        &&& self.seed == seed_of(r)
        &&& self.tokens@ == tokens_of(r.prompt)
        &&& self.negative_tokens@ == tokens_of(negative_text_of(r))
        &&& self.timesteps@.len() == steps_of(r)
        &&& forall|i: int|
            0 <= i < steps_of(r) ==> self.timesteps@[i] as int == timestep(
                steps_of(r) as nat,
                i as nat,
            )
        &&& self.latent_states@ == random_states_spec(seed_of(r), latent_size_of(r) as nat)
    }
}

/// Two plans for the same request are equal in every field: the integer
/// inputs of a generation depend on the request alone.
pub proof fn lemma_plan_deterministic(p: GenerationPlan, q: GenerationPlan, r: RequestView)
    requires
        p.plans(r),
        q.plans(r),
    ensures
        p.width == q.width,
        p.height == q.height,
        p.num_steps == q.num_steps,
        p.guidance_scale_bits == q.guidance_scale_bits,
        p.seed == q.seed,
        p.tokens@ == q.tokens@,
        p.negative_tokens@ == q.negative_tokens@,
        p.timesteps@ == q.timesteps@,
        p.latent_states@ == q.latent_states@,
{
    assert(p.timesteps@ =~= q.timesteps@);
}

/// The model: its fixed components.
#[derive(Clone, Copy)]
pub struct StableDiffusionModel {
    pub tokenizer: SimpleTokenizer,
    pub text_encoder: TextEncoder,
    pub unet: UNet,
    pub vae_decoder: VAEDecoder,
    pub scheduler: DDIMScheduler,
}

impl StableDiffusionModel {
    pub open spec fn wf(&self) -> bool {
        &&& self.tokenizer.wf()
        &&& self.text_encoder.wf()
        &&& self.unet.wf()
        &&& self.vae_decoder.wf()
        &&& self.scheduler.wf()
    }

    pub fn new() -> (r: Self)
        ensures
            r.wf(),
    {
        StableDiffusionModel {
            tokenizer: SimpleTokenizer::new(),
            text_encoder: TextEncoder::new(),
            unet: UNet::new(),
            vae_decoder: VAEDecoder::new(),
            scheduler: DDIMScheduler::new(),
        }
    }

    /// Resolves the request's defaults and computes the token sequences, the
    /// schedule and the initial generator states. The result depends on the
    /// request alone.
    pub fn plan(&self, request: &GenerationRequest) -> (r: Result<GenerationPlan, PipelineError>)
        requires
            self.wf(),
        ensures
            match r {
                Ok(p) => request_error(request@) is None && p.plans(request@),
                Err(e) => request_error(request@) == Some(e),
            },
    {
        let width = match request.width {
            Some(v) => v,
            None => DEFAULT_SIZE,
        };
        let height = match request.height {
            Some(v) => v,
            None => DEFAULT_SIZE,
        };
        let num_steps = match request.num_inference_steps {
            Some(v) => v,
            None => DEFAULT_STEPS,
        };
        let guidance = match request.guidance_scale_bits {
            Some(v) => v,
            None => DEFAULT_GUIDANCE_BITS,
        };
        let seed = match request.seed {
            Some(v) => v,
            None => DEFAULT_SEED,
        };
        let gw: u64 = (width / DOWNSAMPLE) as u64;
        let gh: u64 = (height / DOWNSAMPLE) as u64;
        assert(gw * gh * 4 <= 0x2000_0000u64 * 0x2000_0000u64 * 4) by (nonlinear_arith)
            requires
                gw <= 0x2000_0000u64,
                gh <= 0x2000_0000u64,
        ;
        let latent_size: u64 = gw * gh * 4;
        if latent_size == 0 {
            return Err(PipelineError::ZeroLatentSize);
        }
        if num_steps == 0 {
            return Err(PipelineError::ZeroSteps);
        }
        if latent_size > usize::MAX as u64 {
            return Err(PipelineError::LatentSizeTooLarge);
        }
        let tokens = self.tokenizer.encode(request.prompt.as_str());
        let negative_tokens = match &request.negative_prompt {
            Some(t) => self.tokenizer.encode(t.as_str()),
            None => {
                proof {
                    reveal_strlit("");
                    assert(""@ =~= Seq::<char>::empty());
                }
                self.tokenizer.encode("")
            },
        };
        let timesteps = self.scheduler.get_timesteps(num_steps as usize);
        let latent_states = random_states(seed, latent_size as usize);
        Ok(
            GenerationPlan {
                width,
                height,
                num_steps,
                guidance_scale_bits: guidance,
                seed,
                tokens,
                negative_tokens,
                timesteps,
                latent_states,
            },
        )
    }
}

} // verus!
