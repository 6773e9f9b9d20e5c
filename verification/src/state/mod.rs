pub mod drawing_result;
pub mod fee;
pub mod main_state;
pub mod user_deposit;
pub mod user_deposit_reference;
pub mod vrf_client;
pub mod yi_token;
