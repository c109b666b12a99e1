# hubbub_html_parser

Builds a document from the callbacks of a streaming HTML tokenizer, and finds the style
sheets, scripts, frames and images that the page asks for.

- `src/` is the verified library.
  - `interface` chooses the interface of an element by its tag name.
  - `element` and `document` hold elements, attributes and the tree; `forest` says when the
    nodes form trees.
  - `parser` takes the tokenizer's callbacks.
  - `css_listener` and `js_listener` gather style sheets and scripts.
  - `messages` are what these parts tell each other, `text` compares and joins strings.
  - `trace` states what holds of whole parses.
- `tests/` runs the library on examples.
- `app/` runs it in a browser: threads, channels, and the calls into the network, the
  tokenizer and the style-sheet parser, which it takes as traits.
