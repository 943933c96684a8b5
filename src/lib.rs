//! Hit-result synthesis, miss inference, gradual-calculation bookkeeping,
//! juice stream objects and the fixed-capacity queue of the strain skills,
//! for osu! performance calculation.

mod catch;
mod gradual;
mod hitresults;
mod juice_stream;
mod limited_queue;
mod osu;
mod relax;
mod taiko;

pub use catch::{CatchGradualPerformance, CatchScoreState};
pub use gradual::{GradualPerformanceStep, GradualProgress, OsuGradualPerformance};
pub use hitresults::{Fraction, HitResultPriority};
pub use juice_stream::{
    nested_objects, tiny_droplets_between, JuiceStreamCounts, NestedJuiceStreamObjectKind,
    SliderEventKind,
};
pub use limited_queue::{LimitedQueue, LimitedQueueIter};
pub use osu::{
    calculate_effective_misses, difficulty_object_count, OsuMapCounts, OsuPerformance,
    OsuScoreState,
};
pub use relax::{OsuPP, OsuRelax};
pub use taiko::{
    FirstTwoCombos, TaikoGradualDifficulty, TaikoGradualPerformance, TaikoGradualStep,
    TaikoPerformanceStep, TaikoScoreState,
};
