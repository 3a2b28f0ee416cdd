pub mod tictactoe;
