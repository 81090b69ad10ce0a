# cctray_proxy

A proxy that serves the pipeline runs of Bitbucket repositories as a CCTray feed
(`http://localhost:3000/cctray.xml`), for tools such as CCMenu.

- `src/` is the library, verified with Verus: the JSON model of Bitbucket's answers and the
  lookups into it (`json`), the fields of a run and its feed entry (`pipeline`,
  `pipeline::model`, `pipeline::fields`), the selection of the latest run of each pipeline
  (`pipeline_parser`, `pipeline_loader`), and the feed itself (`proxy`).
- `app/` is the program around it: command line, configuration file, HTTP requests to
  Bitbucket, and the HTTP server.

Run it with the path of a JSON file that lists the repositories, each with a token that
has read access to its pipelines:

```json
[{"id": "workspace/repository", "bearer_token": "..."}]
```
