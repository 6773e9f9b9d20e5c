pub mod callback_request_randomness;
pub mod claim_reward;
pub mod deposit;
pub mod deposit_initialize;
pub mod drawing;
pub mod initialize;
pub mod initialize_vrf;
pub mod start_drawing_phase;
pub mod withdraw;
