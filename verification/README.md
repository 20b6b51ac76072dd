# nslfmt

A code formatter for NSL, a hardware description language, written in Verus:
every step from source text to formatted text is verified against a
mathematical statement of what it computes.

## Layout

- `src/token.rs` — tokens, their views, and their printed forms
  (`Token::text`, `operator_text`).
- `src/lexer.rs` — the lexer. `spec_next` states, as a function of the input
  and the lexer state, which token comes next; `Lexer::try_next_token`,
  `next_token` and `peek` are proved to follow it. The laws of the token
  stream (skipping line breaks gives the other stream without them, tokens
  are numbered one by one, the end of the program repeats) are proof
  functions here.
- `src/lexer/analyzer.rs`, `src/lexer/utils.rs` — a small whole-input lexer
  for the declaration subset, and the cursor readers it uses.
- `src/ast.rs` — the syntax tree, its view, and how a tree prints (`gen`,
  `ASTNode::try_generate`, `ASTNode::generate`).
- `src/parser.rs` — the grammar as spec functions (`g_next_ast` and the
  functions it calls) and the parser proved against it.
- `src/generator.rs` — formats a whole program (`g_program`,
  `Generator::output_node`); the formatted text is the printed items in
  order (`law_output_is_items_in_order`).
- `src/text.rs` — character helpers, and the two calls into `std` that the
  proofs trust: `char::is_alphanumeric` and `String::push`.
- `app/main.rs` — the command line program: reads a file and prints it
  formatted.

## Tests kept out

These tests expect token kinds or tree shapes that the kept tests contradict.
Each one's input is covered by the kept test given after it.

- `lexer_test_macro_else`: `#else` gives `Symbol::Else`, not a macro kind; see
  `lexer_macro_else`.
- `lexer_test_comment_00`, `lexer_test_mutiline_comment_00`, `_01`, `_02`:
  `//` gives a `CPPStyleComment(String)` and `/* */` a
  `CStyleComment(Vec<String>)`; see `lexer_comment_00` and
  `lexer_mutiline_comment_00` to `_02` and `mutiline_comment_03`.
- `if_03`: a braced `if` body stays a `Block` and the `else` branch is kept;
  see `if_01` and `format_if_else_and_state`.
- `parser_test_declare_only`, `parser_test_newline_in_declare_block`: a block
  is `Block(items)`; see `parser_declare_only`, `parser_newline_in_declare_block`.
- `parser_test_one_bit_input`, `parser_test_multi_bit_input`,
  `parser_test_output_inout`: a port's width is optional (`None` when none is
  written); see `parser_one_bit_input`, `parser_multi_bit_input`,
  `parser_output_inout`.
- `parser_test_expression_in_width_block_01`, `_02`: operators group to the
  right; see `parser_expression_in_width_block_01`, `_02`.
- `parser_test_func_in`, `parser_test_func_in_return`,
  `parser_test_func_out_return`: the return port is optional; see
  `parser_func_in`, `parser_func_in_return`, `parser_func_out_return`.
- `parser_test_define_macro3`: an empty `#define` body is `None`; see
  `parser_define_macro3`.
- `parser_test_multi_line_comment`: `/* */` gives a `CStyleComment`; see
  `parser_multi_line_comment` and `generator_test_comment_00`.
