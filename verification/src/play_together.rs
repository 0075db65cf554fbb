//! Playing with somebody else: following their game, and a link cable between both consoles.

pub mod cable;
pub mod live;
pub mod stream;
